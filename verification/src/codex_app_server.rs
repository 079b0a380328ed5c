//! Driving a mission through `codex app-server`: how it is started, how its
//! notifications become events, and when it is over.
use vstd::prelude::*;

use crate::backend::{
    emit, emit_usage, events_view, usage_events, EventView, ExecutionEvent, Session,
};
use crate::codex::CodexConfig;
use crate::json::{
    group_json_view, key_views, law_first_key_counts, law_first_member_is_found, lookup,
    members_view, object1, opt_get, opt_ref, opt_text, or_null, or_text, Json, JsonView, NumberView,
};
use crate::text::{
    cat2, clone_opt, has_prefix, str_eq, strip_prefix, trim, trim_front, trim_set_front, trimmed,
    without_prefix, CharSet,
};
use crate::textmap::{texts, TextMap};

verus! {

// ---------------------------------------------------------------------------
// Notifications
// ---------------------------------------------------------------------------

/// What a notification leads to.
pub struct TranslateOutcome {
    pub events: Vec<ExecutionEvent>,
    pub terminal: bool,
}

/// Translates notifications into events and notices when the mission is over.
pub struct AppServerEventTranslator {
    /// The text of each message so far, by item.
    delta_buffers: TextMap<String>,
    /// The turns whose token counts were reported.
    emitted_usage_for_turn: TextMap<()>,
}

/// The model of a translator.
pub struct TranslatorView {
    pub buffers: Map<Seq<char>, Seq<char>>,
    pub reported: Set<Seq<char>>,
}

impl View for AppServerEventTranslator {
    type V = TranslatorView;

    closed spec fn view(&self) -> TranslatorView {
        TranslatorView {
            buffers: texts(self.delta_buffers@),
            reported: self.emitted_usage_for_turn@.dom(),
        }
    }
}

/// The events of a notification, whether it ends the mission, and the translator
/// after it.
pub struct Translation {
    pub events: Seq<EventView>,
    pub terminal: bool,
    pub state: TranslatorView,
}

/// The text under `key`, or `d`.
pub open spec fn text_or(j: JsonView, key: Seq<char>, d: Seq<char>) -> Seq<char> {
    or_text(opt_text(j.get(key)), d)
}

/// The text of `item` so far.
pub open spec fn buffered(buffers: Map<Seq<char>, Seq<char>>, item: Seq<char>) -> Seq<char> {
    if buffers.dom().contains(item) {
        buffers[item]
    } else {
        Seq::empty()
    }
}

/// A piece of a message.
pub open spec fn message_delta(params: JsonView, state: TranslatorView) -> Translation {
    match opt_text(params.get("delta"@)) {
        Some(delta) => {
            let item = text_or(params, "itemId"@, ""@);
            Translation {
                events: seq![EventView::TextDelta { content: delta }],
                terminal: false,
                state: TranslatorView {
                    buffers: state.buffers.insert(item, buffered(state.buffers, item) + delta),
                    reported: state.reported,
                },
            }
        },
        None => Translation { events: Seq::empty(), terminal: false, state },
    }
}

/// A piece of reasoning.
pub open spec fn reasoning_delta(params: JsonView) -> Seq<EventView> {
    match opt_text(params.get("delta"@)) {
        Some(delta) => seq![EventView::Thinking { content: delta }],
        None => Seq::empty(),
    }
}

pub open spec fn is_tool_type(kind: Seq<char>) -> bool {
    kind == "toolCall"@ || kind == "tool_call"@ || kind == "functionCall"@ || kind
        == "function_call"@
}

/// An item that was started (`started`) or completed.
pub open spec fn item_events(item: JsonView, started: bool) -> Seq<EventView> {
    let kind = text_or(item, "type"@, ""@);
    let id = text_or(item, "id"@, ""@);
    if is_tool_type(kind) {
        let name = text_or(item, "name"@, "unknown_tool"@);
        if started {
            let args = or_null(item.get_first(seq!["arguments"@, "args"@, "input"@]));
            seq![EventView::ToolCall { id, name, args }]
        } else {
            let result = or_null(item.get_first(seq!["result"@, "output"@]));
            seq![EventView::ToolResult { id, name, result }]
        }
    } else if kind == "commandExecution"@ {
        if started {
            let command = or_null(item.get("command"@));
            let args = JsonView::Object(seq![("command"@, command)]);
            seq![EventView::ToolCall { id, name: "bash"@, args }]
        } else {
            let result = or_null(item.get_first(seq!["aggregatedOutput"@, "output"@]));
            seq![EventView::ToolResult { id, name: "bash"@, result }]
        }
    } else {
        Seq::empty()
    }
}

/// The count under the first of `keys` that is there, or 0.
pub open spec fn token_count(usage: JsonView, keys: Seq<Seq<char>>) -> int {
    match usage.get_first(keys) {
        Some(v) => match v.as_u64() {
            Some(n) => n,
            None => 0,
        },
        None => 0,
    }
}

/// The token counts of a turn.
pub open spec fn turn_usage(turn: JsonView) -> Seq<EventView> {
    match turn.get_first(seq!["tokenUsage"@, "usage"@]) {
        Some(usage) => usage_events(
            token_count(usage, seq!["inputTokens"@, "input_tokens"@, "promptTokens"@]),
            token_count(usage, seq!["outputTokens"@, "output_tokens"@, "completionTokens"@]),
        ),
        None => Seq::empty(),
    }
}

/// How a turn ended: the error of a failed one, and whether the mission is over. A goal
/// is pursued further unless the turn failed or was interrupted; any other mission has
/// only one turn.
pub open spec fn turn_end(turn: JsonView, goal: bool) -> (Seq<EventView>, bool) {
    let status = text_or(turn, "status"@, ""@);
    if status == "failed"@ {
        let message = or_text(
            opt_text(opt_get(turn.get("error"@), "message"@)),
            "turn failed"@,
        );
        (seq![EventView::Error { message }], true)
    } else {
        (Seq::empty(), !goal || status == "interrupted"@)
    }
}

/// A completed turn. Its token counts are reported once.
pub open spec fn turn_done(turn: JsonView, goal: bool, state: TranslatorView) -> Translation {
    let id = text_or(turn, "id"@, ""@);
    let fresh = id.len() > 0 && !state.reported.contains(id);
    let usage = if fresh {
        turn_usage(turn)
    } else {
        Seq::empty()
    };
    Translation {
        events: usage + turn_end(turn, goal).0,
        terminal: turn_end(turn, goal).1,
        state: TranslatorView {
            buffers: state.buffers,
            reported: if fresh {
                state.reported.insert(id)
            } else {
                state.reported
            },
        },
    }
}

/// Whether a goal's state ends the mission.
pub open spec fn goal_over(goal: JsonView) -> bool {
    let status = text_or(goal, "status"@, ""@);
    status == "complete"@ || status == "budgetLimited"@
}

/// An error, which ends the mission unless it is retried.
pub open spec fn error_notice(params: JsonView, state: TranslatorView) -> Translation {
    match params.get("error"@) {
        Some(err) => Translation {
            events: seq![
                EventView::Error { message: text_or(err, "message"@, "codex app-server error"@) },
            ],
            terminal: match params.get("willRetry"@) {
                Some(v) => v.as_bool() != Some(true),
                None => true,
            },
            state,
        },
        None => Translation { events: Seq::empty(), terminal: false, state },
    }
}

/// What the notification `method` leads to.
pub open spec fn translated(
    method: Seq<char>,
    params: JsonView,
    goal: bool,
    state: TranslatorView,
) -> Translation {
    if method == "item/agentMessage/delta"@ {
        message_delta(params, state)
    } else if method == "item/reasoning/textDelta"@ || method
        == "item/reasoning/summaryTextDelta"@ {
        Translation { events: reasoning_delta(params), terminal: false, state }
    } else if method == "item/started"@ || method == "item/completed"@ {
        Translation {
            events: match params.get("item"@) {
                Some(item) => item_events(item, method == "item/started"@),
                None => Seq::empty(),
            },
            terminal: false,
            state,
        }
    } else if method == "turn/completed"@ {
        match params.get("turn"@) {
            Some(turn) => turn_done(turn, goal, state),
            None => Translation { events: Seq::empty(), terminal: !goal, state },
        }
    } else if method == "thread/goal/updated"@ {
        Translation {
            events: Seq::empty(),
            terminal: match params.get("goal"@) {
                Some(g) => goal_over(g),
                None => false,
            },
            state,
        }
    } else if method == "thread/goal/cleared"@ {
        Translation { events: Seq::empty(), terminal: goal, state }
    } else if method == "error"@ {
        error_notice(params, state)
    } else {
        Translation { events: Seq::empty(), terminal: false, state }
    }
}

fn str_or<'a>(j: &'a Json, key: &str, d: &'a str) -> (r: &'a str)
    ensures
        r@ == text_or(j@, key@, d@),
{
    match j.get_str(key) {
        Some(s) => s,
        None => d,
    }
}

fn cloned_first(j: &Json, keys: &[&str]) -> (r: Json)
    ensures
        r@ == or_null(j@.get_first(key_views(keys@))),
{
    match j.get_first(keys) {
        Some(v) => v.clone(),
        None => Json::Null,
    }
}

fn count_first(j: &Json, keys: &[&str]) -> (r: u64)
    ensures
        r == token_count(j@, key_views(keys@)),
{
    match j.get_first(keys) {
        Some(v) => match v.as_u64() {
            Some(n) => n,
            None => 0,
        },
        None => 0,
    }
}

fn emit_item(events: &mut Vec<ExecutionEvent>, item: &Json, started: bool)
    ensures
        events_view(final(events)@) == events_view(old(events)@) + item_events(item@, started),
{
    let kind = str_or(item, "type", "");
    let id = str_or(item, "id", "").to_string();
    if str_eq(kind, "toolCall") || str_eq(kind, "tool_call") || str_eq(kind, "functionCall")
        || str_eq(kind, "function_call") {
        let name = str_or(item, "name", "unknown_tool").to_string();
        if started {
            let keys = ["arguments", "args", "input"];
            assert(key_views(keys@) =~= seq!["arguments"@, "args"@, "input"@]);
            let args = cloned_first(item, keys.as_slice());
            emit(events, ExecutionEvent::ToolCall { id, name, args });
        } else {
            let keys = ["result", "output"];
            assert(key_views(keys@) =~= seq!["result"@, "output"@]);
            let result = cloned_first(item, keys.as_slice());
            emit(events, ExecutionEvent::ToolResult { id, name, result });
        }
    } else if str_eq(kind, "commandExecution") {
        let name = "bash".to_string();
        if started {
            let command = match item.get("command") {
                Some(v) => v.clone(),
                None => Json::Null,
            };
            let args = object1("command", command);
            emit(events, ExecutionEvent::ToolCall { id, name, args });
        } else {
            let keys = ["aggregatedOutput", "output"];
            assert(key_views(keys@) =~= seq!["aggregatedOutput"@, "output"@]);
            let result = cloned_first(item, keys.as_slice());
            emit(events, ExecutionEvent::ToolResult { id, name, result });
        }
    }
    assert(events_view(events@) =~= events_view(old(events)@) + item_events(item@, started));
}

fn emit_turn_usage(events: &mut Vec<ExecutionEvent>, turn: &Json)
    ensures
        events_view(final(events)@) == events_view(old(events)@) + turn_usage(turn@),
{
    let keys = ["tokenUsage", "usage"];
    assert(key_views(keys@) =~= seq!["tokenUsage"@, "usage"@]);
    if let Some(usage) = turn.get_first(keys.as_slice()) {
        let inputs = ["inputTokens", "input_tokens", "promptTokens"];
        assert(key_views(inputs@) =~= seq!["inputTokens"@, "input_tokens"@, "promptTokens"@]);
        let outputs = ["outputTokens", "output_tokens", "completionTokens"];
        assert(key_views(outputs@) =~= seq![
            "outputTokens"@,
            "output_tokens"@,
            "completionTokens"@,
        ]);
        let input = count_first(usage, inputs.as_slice());
        let output = count_first(usage, outputs.as_slice());
        emit_usage(events, input, output);
    }
    assert(events_view(events@) =~= events_view(old(events)@) + turn_usage(turn@));
}

fn emit_turn_end(events: &mut Vec<ExecutionEvent>, turn: &Json, goal: bool) -> (terminal: bool)
    ensures
        events_view(final(events)@) == events_view(old(events)@) + turn_end(turn@, goal).0,
        terminal == turn_end(turn@, goal).1,
{
    let status = str_or(turn, "status", "");
    let terminal = if str_eq(status, "failed") {
        let message = match turn.get("error") {
            Some(e) => str_or(e, "message", "turn failed"),
            None => "turn failed",
        };
        emit(events, ExecutionEvent::Error { message: message.to_string() });
        true
    } else {
        !goal || str_eq(status, "interrupted")
    };
    assert(events_view(events@) =~= events_view(old(events)@) + turn_end(turn@, goal).0);
    terminal
}

impl AppServerEventTranslator {
    pub fn new() -> (r: Self)
        ensures
            r@.buffers == Map::<Seq<char>, Seq<char>>::empty(),
            r@.reported == Set::<Seq<char>>::empty(),
    {
        let r = AppServerEventTranslator {
            delta_buffers: TextMap::new(),
            emitted_usage_for_turn: TextMap::new(),
        };
        assert(r@.buffers =~= Map::<Seq<char>, Seq<char>>::empty());
        assert(r@.reported =~= Set::<Seq<char>>::empty());
        r
    }

    fn push_delta(&mut self, item: &str, delta: &str)
        ensures
            final(self)@.reported == old(self)@.reported,
            final(self)@.buffers == old(self)@.buffers.insert(
                item@,
                buffered(old(self)@.buffers, item@) + delta@,
            ),
    {
        let mut text = match self.delta_buffers.get(item) {
            Some(s) => s.clone(),
            None => String::new(),
        };
        text.push_str(delta);
        assert(text@ =~= buffered(old(self)@.buffers, item@) + delta@);
        self.delta_buffers.insert(item.to_string(), text);
        assert(self@.buffers =~= old(self)@.buffers.insert(item@, text@));
    }

    fn on_message_delta(&mut self, params: &Json) -> (r: TranslateOutcome)
        ensures
            ({
                let t = message_delta(params@, old(self)@);
                &&& events_view(r.events@) == t.events
                &&& r.terminal == t.terminal
                &&& final(self)@ == t.state
            }),
    {
        let mut events: Vec<ExecutionEvent> = Vec::new();
        assert(events_view(events@) =~= Seq::empty());
        if let Some(delta) = params.get_str("delta") {
            self.push_delta(str_or(params, "itemId", ""), delta);
            emit(&mut events, ExecutionEvent::TextDelta { content: delta.to_string() });
        }
        assert(events_view(events@) =~= message_delta(params@, old(self)@).events);
        TranslateOutcome { events, terminal: false }
    }

    fn on_turn_completed(&mut self, turn: &Json, goal: bool) -> (r: TranslateOutcome)
        ensures
            ({
                let t = turn_done(turn@, goal, old(self)@);
                &&& events_view(r.events@) == t.events
                &&& r.terminal == t.terminal
                &&& final(self)@ == t.state
            }),
    {
        let mut events: Vec<ExecutionEvent> = Vec::new();
        assert(events_view(events@) =~= Seq::empty());
        let turn_id = str_or(turn, "id", "");
        if !turn_id.is_empty() && !self.emitted_usage_for_turn.contains(turn_id) {
            emit_turn_usage(&mut events, turn);
            self.emitted_usage_for_turn.insert(turn_id.to_string(), ());
            assert(self@.reported =~= old(self)@.reported.insert(turn_id@));
        }
        let terminal = emit_turn_end(&mut events, turn, goal);
        assert(events_view(events@) =~= turn_done(turn@, goal, old(self)@).events);
        TranslateOutcome { events, terminal }
    }

    /// Translates one notification.
    pub fn handle_notification(&mut self, method: &str, params: &Json, is_goal_mission: bool) -> (r:
        TranslateOutcome)
        ensures
            ({
                let t = translated(method@, params@, is_goal_mission, old(self)@);
                &&& events_view(r.events@) == t.events
                &&& r.terminal == t.terminal
                &&& final(self)@ == t.state
            }),
    {
        let mut events: Vec<ExecutionEvent> = Vec::new();
        let mut terminal = false;
        assert(events_view(events@) =~= Seq::empty());
        if str_eq(method, "item/agentMessage/delta") {
            return self.on_message_delta(params);
        } else if str_eq(method, "item/reasoning/textDelta") || str_eq(
            method,
            "item/reasoning/summaryTextDelta",
        ) {
            if let Some(delta) = params.get_str("delta") {
                emit(&mut events, ExecutionEvent::Thinking { content: delta.to_string() });
            }
        } else if str_eq(method, "item/started") || str_eq(method, "item/completed") {
            if let Some(item) = params.get("item") {
                emit_item(&mut events, item, str_eq(method, "item/started"));
            }
        } else if str_eq(method, "turn/completed") {
            if let Some(turn) = params.get("turn") {
                return self.on_turn_completed(turn, is_goal_mission);
            }
            terminal = !is_goal_mission;
        } else if str_eq(method, "thread/goal/updated") {
            if let Some(goal) = params.get("goal") {
                let status = str_or(goal, "status", "");
                if str_eq(status, "complete") || str_eq(status, "budgetLimited") {
                    terminal = true;
                }
            }
        } else if str_eq(method, "thread/goal/cleared") {
            if is_goal_mission {
                terminal = true;
            }
        } else if str_eq(method, "error") {
            if let Some(err) = params.get("error") {
                let message = str_or(err, "message", "codex app-server error").to_string();
                let will_retry = match params.get("willRetry") {
                    Some(v) => match v.as_bool() {
                        Some(b) => b,
                        None => false,
                    },
                    None => false,
                };
                emit(&mut events, ExecutionEvent::Error { message });
                if !will_retry {
                    terminal = true;
                }
            }
        }
        assert(events_view(events@) =~= translated(
            method@,
            params@,
            is_goal_mission,
            old(self)@,
        ).events);
        TranslateOutcome { events, terminal }
    }
}

// ---------------------------------------------------------------------------
// Laws
// ---------------------------------------------------------------------------

/// The token counts of a turn are reported at most once, however often its
/// completion is notified.
pub proof fn law_usage_reported_once(turn: JsonView, goal: bool, state: TranslatorView)
    requires
        text_or(turn, "id"@, ""@).len() > 0,
    ensures
        ({
            let first = turn_done(turn, goal, state);
            let second = turn_done(turn, goal, first.state);
            &&& first.state.reported.contains(text_or(turn, "id"@, ""@))
            &&& second.events == turn_end(turn, goal).0
            &&& second.state == first.state
        }),
{
    let first = turn_done(turn, goal, state);
    let second = turn_done(turn, goal, first.state);
    assert(second.events =~= turn_end(turn, goal).0);
}

/// One notification: its method, its parameters, and whether the mission pursues a goal.
pub struct Notification {
    pub method: Seq<char>,
    pub params: JsonView,
    pub goal: bool,
}

/// Whether a notification says that the turn `id` is over.
pub open spec fn ends_turn(n: Notification, id: Seq<char>) -> bool {
    n.method == "turn/completed"@ && (n.params.get("turn"@) matches Some(turn) && text_or(
        turn,
        "id"@,
        ""@,
    ) == id)
}

/// How many events report token counts.
pub open spec fn usage_count(events: Seq<EventView>) -> nat
    decreases events.len(),
{
    if events.len() == 0 {
        0
    } else {
        usage_count(events.drop_last()) + if events.last() is Usage {
            1nat
        } else {
            0
        }
    }
}

/// How many reports of token counts a row of notifications leads to for the turn `id`.
pub open spec fn usage_reports(
    notifications: Seq<Notification>,
    state: TranslatorView,
    id: Seq<char>,
) -> nat
    decreases notifications.len(),
{
    if notifications.len() == 0 {
        0
    } else {
        let n = notifications[0];
        let t = translated(n.method, n.params, n.goal, state);
        usage_reports(notifications.drop_first(), t.state, id) + if ends_turn(n, id) {
            usage_count(t.events)
        } else {
            0
        }
    }
}

proof fn lemma_turn_completed_is_no_item()
    ensures
        "turn/completed"@ != "item/agentMessage/delta"@,
        "turn/completed"@ != "item/reasoning/textDelta"@,
        "turn/completed"@ != "item/reasoning/summaryTextDelta"@,
        "turn/completed"@ != "item/started"@,
        "turn/completed"@ != "item/completed"@,
{
    reveal_strlit("turn/completed");
    reveal_strlit("item/agentMessage/delta");
    reveal_strlit("item/reasoning/textDelta");
    reveal_strlit("item/reasoning/summaryTextDelta");
    reveal_strlit("item/started");
    reveal_strlit("item/completed");
    assert("turn/completed"@[0] == 't' && "item/completed"@[0] == 'i' && "item/started"@[0] == 'i');
}

/// Only the end of a turn leads to a report of token counts.
pub proof fn law_only_turns_report_usage(n: Notification, state: TranslatorView)
    requires
        n.method != "turn/completed"@ || n.params.get("turn"@) is None,
    ensures
        usage_count(translated(n.method, n.params, n.goal, state).events) == 0,
{
    lemma_turn_completed_is_no_item();
    reveal_with_fuel(usage_count, 2);
}

proof fn lemma_usage_of_step(n: Notification, state: TranslatorView, id: Seq<char>)
    ensures
        ({
            let t = translated(n.method, n.params, n.goal, state);
            &&& state.reported.contains(id) ==> t.state.reported.contains(id)
            &&& ends_turn(n, id) ==> {
                &&& usage_count(t.events) <= 1
                &&& id.len() == 0 || state.reported.contains(id) ==> usage_count(t.events) == 0
                &&& id.len() > 0 ==> t.state.reported.contains(id)
            }
        }),
{
    lemma_turn_completed_is_no_item();
    if ends_turn(n, id) {
        reveal_with_fuel(usage_count, 3);
        let t = translated(n.method, n.params, n.goal, state);
        if t.events.len() == 2 {
            assert(t.events.drop_last().last() == t.events[0]);
        }
    }
}

/// Whatever notifications come, in whatever order, the token counts of a turn are reported
/// at most once, and not at all where they were reported before or the turn has no name.
pub proof fn law_usage_reported_once_in_all(
    notifications: Seq<Notification>,
    state: TranslatorView,
    id: Seq<char>,
)
    ensures
        usage_reports(notifications, state, id) <= 1,
        id.len() == 0 || state.reported.contains(id) ==> usage_reports(notifications, state, id)
            == 0,
    decreases notifications.len(),
{
    if notifications.len() > 0 {
        let n = notifications[0];
        let t = translated(n.method, n.params, n.goal, state);
        lemma_usage_of_step(n, state, id);
        law_usage_reported_once_in_all(notifications.drop_first(), t.state, id);
    }
}

/// A mission that pursues no goal is over when it is first notified of a completed turn,
/// whatever the notification says of the turn.
pub proof fn law_first_turn_ends_mission(params: JsonView, state: TranslatorView)
    ensures
        translated("turn/completed"@, params, false, state).terminal,
{
    lemma_turn_completed_is_no_item();
}

/// A goal mission is not over when a turn ends, unless the turn failed or was interrupted;
/// any other mission is, however the turn ended.
pub proof fn law_goal_outlives_turn(turn: JsonView, state: TranslatorView)
    ensures
        ({
            let status = text_or(turn, "status"@, ""@);
            turn_done(turn, true, state).terminal == (status == "failed"@ || status
                == "interrupted"@)
        }),
        turn_done(turn, false, state).terminal,
{
}

// ---------------------------------------------------------------------------
// Requests of the server
// ---------------------------------------------------------------------------

/// The answer to a request of the server: everything is approved. A refresh of
/// tokens cannot be served and is answered with `null`.
pub open spec fn auto_approval(method: Seq<char>) -> JsonView {
    if method == "account/chatgptAuthTokens/refresh"@ {
        JsonView::Null
    } else {
        JsonView::Object(seq![("decision"@, JsonView::Text("approve"@))])
    }
}

pub fn elicitation_auto_approve(method: &str) -> (r: Json)
    ensures
        r@ == auto_approval(method@),
{
    if str_eq(method, "account/chatgptAuthTokens/refresh") {
        Json::Null
    } else {
        object1("decision", Json::Text("approve".to_string()))
    }
}

// ---------------------------------------------------------------------------
// Start of a mission
// ---------------------------------------------------------------------------

/// What a message asks for.
pub enum MissionInput {
    /// A goal to be pursued over many turns.
    Goal { objective: String },
    /// A goal without an objective.
    EmptyGoal,
    /// A single turn.
    Turn { text: String },
}

/// The model of a message's meaning.
pub enum MissionInputView {
    Goal { objective: Seq<char> },
    EmptyGoal,
    Turn { text: Seq<char> },
}

impl View for MissionInput {
    type V = MissionInputView;

    open spec fn view(&self) -> MissionInputView {
        match self {
            MissionInput::Goal { objective } => MissionInputView::Goal { objective: objective@ },
            MissionInput::EmptyGoal => MissionInputView::EmptyGoal,
            MissionInput::Turn { text } => MissionInputView::Turn { text: text@ },
        }
    }
}

/// A message whose text, behind leading whitespace, begins with `/goal ` sets a
/// goal: what follows this prefix, without outer whitespace. Any other message is a turn,
/// word for word.
pub open spec fn routed(message: Seq<char>) -> MissionInputView {
    match without_prefix(trim_front(message, CharSet::Whitespace), "/goal "@) {
        Some(rest) => {
            let objective = trimmed(rest);
            if objective.len() == 0 {
                MissionInputView::EmptyGoal
            } else {
                MissionInputView::Goal { objective }
            }
        },
        None => MissionInputView::Turn { text: message },
    }
}

pub fn route_message(message: &str) -> (r: MissionInput)
    ensures
        r@ == routed(message@),
{
    match strip_prefix(trim_set_front(message, CharSet::Whitespace), "/goal ") {
        Some(rest) => {
            let objective = trim(rest);
            if objective.is_empty() {
                MissionInput::EmptyGoal
            } else {
                MissionInput::Goal { objective: objective.to_string() }
            }
        },
        None => MissionInput::Turn { text: message.to_string() },
    }
}

/// Of a message that begins with `/goal ` this prefix is taken off, once: the objective may
/// begin with the same word.
pub proof fn law_goal_prefix_is_stripped_once(rest: Seq<char>)
    ensures
        routed("/goal "@ + rest) == if trimmed(rest).len() == 0 {
            MissionInputView::EmptyGoal
        } else {
            MissionInputView::Goal { objective: trimmed(rest) }
        },
{
    reveal_strlit("/goal ");
    let message = "/goal "@ + rest;
    assert(message[0] == '/');
    assert(trim_front(message, CharSet::Whitespace) == message);
    assert(message.take("/goal "@.len() as int) =~= "/goal "@);
    assert(message.skip("/goal "@.len() as int) =~= rest);
}

/// How `codex app-server` is run.
pub struct AppServerConfig {
    pub cli_path: String,
    pub enabled_features: Vec<String>,
    pub default_model: Option<String>,
    pub model_effort: Option<String>,
    pub env: Vec<(String, String)>,
}

pub fn app_server_config(cfg: &CodexConfig) -> (r: AppServerConfig)
    ensures
        r.cli_path == cfg.cli_path,
        r.default_model == cfg.default_model,
        r.model_effort == cfg.model_effort,
        r.enabled_features@.len() == 1,
        r.enabled_features@[0]@ == "goals"@,
        match cfg.oauth_token {
            Some(token) => r.env@.len() == 1 && r.env@[0].0@ == "OPENAI_OAUTH_TOKEN"@
                && r.env@[0].1 == token,
            None => r.env@.len() == 0,
        },
{
    let mut enabled_features: Vec<String> = Vec::new();
    enabled_features.push("goals".to_string());
    let mut env: Vec<(String, String)> = Vec::new();
    if let Some(token) = &cfg.oauth_token {
        env.push(("OPENAI_OAUTH_TOKEN".to_string(), token.clone()));
    }
    AppServerConfig {
        cli_path: cfg.cli_path.clone(),
        enabled_features,
        default_model: clone_opt(&cfg.default_model),
        model_effort: clone_opt(&cfg.model_effort),
        env,
    }
}

/// How far the start of a mission has come: the last request and its reply.
#[allow(inconsistent_fields)]
pub enum StartProgress {
    Spawned,
    Initialized { result: Result<(), String> },
    ThreadStarted { result: Result<String, String> },
    /// Whether the stream of inbound messages could be taken.
    InboundTaken { thread_id: String, taken: bool },
    GoalSet { result: Result<(), String> },
    TurnStarted { result: Result<(), String> },
}

/// What the start of a mission does next. A failed start shuts the server down.
pub enum StartAction {
    Initialize { client: String, version: String },
    /// Sends the `initialized` notification, whose outcome does not matter, and
    /// starts a thread.
    StartThread {
        model: Option<String>,
        cwd: Option<String>,
        reasoning_effort: Option<String>,
    },
    TakeInbound { thread_id: String },
    SetGoal { thread_id: String, objective: String },
    StartTurn { thread_id: String, text: String },
    /// Runs the mission; `goal` says whether it pursues a goal.
    Run { goal: bool },
    Fail { message: String },
}

/// Whether `a` is what the start of a mission does after `p`.
pub open spec fn start_follows(
    p: StartProgress,
    cfg: CodexConfig,
    session: Session,
    message: Seq<char>,
    a: StartAction,
) -> bool {
    match p {
        StartProgress::Spawned => {
            &&& a is Initialize
            &&& a->Initialize_client@ == "sandboxed-sh"@
            &&& a->Initialize_version@ == "1.2.0"@
        },
        StartProgress::Initialized { result: Ok(_) } => {
            &&& a is StartThread
            &&& a->StartThread_model == session.model
            &&& a->StartThread_cwd == Some(session.directory)
            &&& a->StartThread_reasoning_effort == cfg.model_effort
        },
        StartProgress::Initialized { result: Err(e) } => {
            a is Fail && a->Fail_message@ == "codex app-server initialize failed: "@ + e@
        },
        StartProgress::ThreadStarted { result: Ok(id) } => {
            a is TakeInbound && a->TakeInbound_thread_id == id
        },
        StartProgress::ThreadStarted { result: Err(e) } => {
            a is Fail && a->Fail_message@ == "codex thread/start failed: "@ + e@
        },
        StartProgress::InboundTaken { thread_id, taken } => if !taken {
            a is Fail && a->Fail_message@ == "codex app-server inbound stream already taken"@
        } else {
            match routed(message) {
                MissionInputView::Goal { objective } => {
                    &&& a is SetGoal
                    &&& a->SetGoal_thread_id == thread_id
                    &&& a->SetGoal_objective@ == objective
                },
                MissionInputView::EmptyGoal => {
                    a is Fail && a->Fail_message@
                        == "/goal requires an objective \u{2014} got empty string"@
                },
                MissionInputView::Turn { text } => {
                    &&& a is StartTurn
                    &&& a->StartTurn_thread_id == thread_id
                    &&& a->StartTurn_text@ == text
                },
            }
        },
        StartProgress::GoalSet { result: Ok(_) } => a == (StartAction::Run { goal: true }),
        StartProgress::GoalSet { result: Err(e) } => {
            a is Fail && a->Fail_message@ == "codex thread/goal/set failed: "@ + e@
        },
        StartProgress::TurnStarted { result: Ok(_) } => a == (StartAction::Run { goal: false }),
        StartProgress::TurnStarted { result: Err(e) } => {
            a is Fail && a->Fail_message@ == "codex turn/start failed: "@ + e@
        },
    }
}

/// What the start of a mission does next.
pub fn next_start_action(
    progress: StartProgress,
    cfg: &CodexConfig,
    session: &Session,
    message: &str,
) -> (r: StartAction)
    ensures
        start_follows(progress, *cfg, *session, message@, r),
{
    match progress {
        StartProgress::Spawned => StartAction::Initialize {
            client: "sandboxed-sh".to_string(),
            version: "1.2.0".to_string(),
        },
        StartProgress::Initialized { result } => match result {
            Ok(_) => StartAction::StartThread {
                model: clone_opt(&session.model),
                cwd: Some(session.directory.clone()),
                reasoning_effort: clone_opt(&cfg.model_effort),
            },
            Err(e) => StartAction::Fail {
                message: cat2("codex app-server initialize failed: ", e.as_str()),
            },
        },
        StartProgress::ThreadStarted { result } => match result {
            Ok(id) => StartAction::TakeInbound { thread_id: id },
            Err(e) => StartAction::Fail {
                message: cat2("codex thread/start failed: ", e.as_str()),
            },
        },
        StartProgress::InboundTaken { thread_id, taken } => if !taken {
            StartAction::Fail {
                message: "codex app-server inbound stream already taken".to_string(),
            }
        } else {
            match route_message(message) {
                MissionInput::Goal { objective } => StartAction::SetGoal { thread_id, objective },
                MissionInput::EmptyGoal => StartAction::Fail {
                    message: "/goal requires an objective \u{2014} got empty string".to_string(),
                },
                MissionInput::Turn { text } => StartAction::StartTurn { thread_id, text },
            }
        },
        StartProgress::GoalSet { result } => match result {
            Ok(_) => StartAction::Run { goal: true },
            Err(e) => StartAction::Fail {
                message: cat2("codex thread/goal/set failed: ", e.as_str()),
            },
        },
        StartProgress::TurnStarted { result } => match result {
            Ok(_) => StartAction::Run { goal: false },
            Err(e) => StartAction::Fail {
                message: cat2("codex turn/start failed: ", e.as_str()),
            },
        },
    }
}

// ---------------------------------------------------------------------------
// What each notification leads to
// ---------------------------------------------------------------------------

proof fn lemma_methods_differ()
    ensures
        "item/started"@ != "item/completed"@,
        "item/reasoning/textDelta"@ != "item/started"@,
        "item/reasoning/textDelta"@ != "item/completed"@,
        "item/reasoning/summaryTextDelta"@ != "item/started"@,
        "item/reasoning/summaryTextDelta"@ != "item/completed"@,
        "thread/goal/updated"@ != "thread/goal/cleared"@,
        "thread/goal/updated"@ != "turn/completed"@,
        "thread/goal/cleared"@ != "turn/completed"@,
        "error"@ != "turn/completed"@,
        "error"@ != "thread/goal/updated"@,
        "error"@ != "thread/goal/cleared"@,
        forall|i: int, j: int|
            0 <= i < item_methods().len() && 0 <= j < other_methods().len()
                ==> #[trigger] item_methods()[i] != #[trigger] other_methods()[j],
{
    reveal_strlit("item/agentMessage/delta");
    reveal_strlit("item/reasoning/textDelta");
    reveal_strlit("item/reasoning/summaryTextDelta");
    reveal_strlit("item/started");
    reveal_strlit("item/completed");
    reveal_strlit("turn/completed");
    reveal_strlit("thread/goal/updated");
    reveal_strlit("thread/goal/cleared");
    reveal_strlit("error");
    assert("item/agentMessage/delta"@.len() == 23 &&
        "item/reasoning/textDelta"@.len() == 24 &&
        "item/reasoning/summaryTextDelta"@.len() == 31 &&
        "item/started"@.len() == 12 &&
        "item/completed"@.len() == 14 &&
        "turn/completed"@.len() == 14 &&
        "thread/goal/updated"@.len() == 19 &&
        "thread/goal/cleared"@.len() == 19 &&
        "error"@.len() == 5 &&
        "item/completed"@[0] == 'i' &&
        "turn/completed"@[0] == 't' &&
        "thread/goal/updated"@[12] == 'u' &&
        "thread/goal/cleared"@[12] == 'c');
    assert("item/agentMessage/delta"@[0] == 'i' && "item/reasoning/textDelta"@[0] == 'i'
        && "item/reasoning/summaryTextDelta"@[0] == 'i' && "item/started"@[0] == 'i'
        && "item/completed"@[0] == 'i' && "turn/completed"@[0] == 't' && "thread/goal/updated"@[0]
        == 't' && "thread/goal/cleared"@[0] == 't' && "error"@[0] == 'e');
    assert forall|i: int, j: int|
        0 <= i < item_methods().len() && 0 <= j < other_methods().len() implies #[trigger] item_methods()[i]
        != #[trigger] other_methods()[j] by {
        assert(item_methods()[i][0] == 'i');
        assert(other_methods()[j][0] == 't' || other_methods()[j][0] == 'e');
    }
}

/// Whether `m` is the method of a notification that leads to something.
pub open spec fn is_method(m: Seq<char>) -> bool {
    item_methods().contains(m) || other_methods().contains(m)
}

/// The methods that tell of items.
pub open spec fn item_methods() -> Seq<Seq<char>> {
    seq![
        "item/agentMessage/delta"@,
        "item/reasoning/textDelta"@,
        "item/reasoning/summaryTextDelta"@,
        "item/started"@,
        "item/completed"@,
    ]
}

/// The methods that tell of turns, goals and errors.
pub open spec fn other_methods() -> Seq<Seq<char>> {
    seq!["turn/completed"@, "thread/goal/updated"@, "thread/goal/cleared"@, "error"@]
}

proof fn lemma_other_is_no_item(j: int)
    requires
        0 <= j < 4,
    ensures
        ({
            let m = other_methods()[j];
            m != "item/agentMessage/delta"@ && m != "item/reasoning/textDelta"@ && m
                != "item/reasoning/summaryTextDelta"@ && m != "item/started"@ && m
                != "item/completed"@
        }),
{
    lemma_methods_differ();
    assert(item_methods()[0] != other_methods()[j]);
    assert(item_methods()[1] != other_methods()[j]);
    assert(item_methods()[2] != other_methods()[j]);
    assert(item_methods()[3] != other_methods()[j]);
    assert(item_methods()[4] != other_methods()[j]);
}

/// Pieces of text and of thoughts are passed on as they are, and the text of each item is put
/// together from its pieces.
pub proof fn law_pieces_are_passed_on(
    params: JsonView,
    delta: Seq<char>,
    item: Seq<char>,
    goal: bool,
    state: TranslatorView,
)
    requires
        params.get("delta"@) == Some(JsonView::Text(delta)),
        params.get("itemId"@) == Some(JsonView::Text(item)),
    ensures
        ({
            let t = translated("item/agentMessage/delta"@, params, goal, state);
            let before = if state.buffers.dom().contains(item) {
                state.buffers[item]
            } else {
                Seq::empty()
            };
            &&& t.events == seq![EventView::TextDelta { content: delta }]
            &&& !t.terminal
            &&& t.state.buffers == state.buffers.insert(item, before + delta)
            &&& t.state.reported == state.reported
        }),
        translated("item/reasoning/textDelta"@, params, goal, state).events == seq![
            EventView::Thinking { content: delta },
        ],
        translated("item/reasoning/summaryTextDelta"@, params, goal, state).events == seq![
            EventView::Thinking { content: delta },
        ],
{
    reveal_strlit("item/agentMessage/delta");
    reveal_strlit("item/reasoning/textDelta");
    reveal_strlit("item/reasoning/summaryTextDelta");
    assert("item/agentMessage/delta"@.len() == 23 &&
        "item/reasoning/textDelta"@.len() == 24 &&
        "item/reasoning/summaryTextDelta"@.len() == 31);
}

/// The call of a tool is passed on when it starts, and its result when it completes.
pub proof fn law_tool_items_are_passed_on(
    params: JsonView,
    item: JsonView,
    kind: Seq<char>,
    id: Seq<char>,
    name: Seq<char>,
    args: JsonView,
    result: JsonView,
    goal: bool,
    state: TranslatorView,
)
    requires
        params.get("item"@) == Some(item),
        item.get("type"@) == Some(JsonView::Text(kind)),
        kind == "toolCall"@ || kind == "tool_call"@ || kind == "functionCall"@ || kind
            == "function_call"@,
        item.get("id"@) == Some(JsonView::Text(id)),
        item.get("name"@) == Some(JsonView::Text(name)),
        item.get("arguments"@) == Some(args),
        item.get("result"@) == Some(result),
    ensures
        translated("item/started"@, params, goal, state).events == seq![
            EventView::ToolCall { id, name, args },
        ],
        translated("item/completed"@, params, goal, state).events == seq![
            EventView::ToolResult { id, name, result },
        ],
        !translated("item/completed"@, params, goal, state).terminal,
        translated("item/completed"@, params, goal, state).state == state,
{
    lemma_methods_differ();
    reveal_strlit("item/agentMessage/delta");
    reveal_strlit("item/started");
    reveal_strlit("item/completed");
    assert("item/agentMessage/delta"@.len() == 23 &&
        "item/started"@.len() == 12 &&
        "item/completed"@.len() == 14);
    law_first_key_counts(item->Object_0, seq!["arguments"@, "args"@, "input"@], 0);
    law_first_key_counts(item->Object_0, seq!["result"@, "output"@], 0);
}

/// A command is reported as a call of `bash`, and its output as the result.
pub proof fn law_command_items_are_passed_on(
    params: JsonView,
    item: JsonView,
    id: Seq<char>,
    command: JsonView,
    output: JsonView,
    goal: bool,
    state: TranslatorView,
)
    requires
        params.get("item"@) == Some(item),
        item.get("type"@) == Some(JsonView::Text("commandExecution"@)),
        item.get("id"@) == Some(JsonView::Text(id)),
        item.get("command"@) == Some(command),
        item.get("aggregatedOutput"@) == Some(output) || (item.get("aggregatedOutput"@) is None
            && item.get("output"@) == Some(output)),
    ensures
        ({
            let e = translated("item/started"@, params, goal, state).events;
            &&& e.len() == 1 && e[0] is ToolCall && e[0]->ToolCall_id == id && e[0]->ToolCall_name
                == "bash"@
            &&& e[0]->ToolCall_args.get("command"@) == Some(command)
        }),
        translated("item/completed"@, params, goal, state).events == seq![
            EventView::ToolResult { id, name: "bash"@, result: output },
        ],
{
    lemma_methods_differ();
    reveal_strlit("item/agentMessage/delta");
    reveal_strlit("item/started");
    reveal_strlit("item/completed");
    reveal_strlit("toolCall");
    reveal_strlit("tool_call");
    reveal_strlit("functionCall");
    reveal_strlit("function_call");
    reveal_strlit("commandExecution");
    assert("item/agentMessage/delta"@.len() == 23 &&
        "item/started"@.len() == 12 &&
        "item/completed"@.len() == 14 &&
        "toolCall"@.len() == 8 &&
        "tool_call"@.len() == 9 &&
        "functionCall"@.len() == 12 &&
        "function_call"@.len() == 13 &&
        "commandExecution"@.len() == 16 &&
        "item/started"@[0] == 'i' &&
        "functionCall"@[0] == 'f');
    law_first_key_counts(
        item->Object_0,
        seq!["aggregatedOutput"@, "output"@],
        if item.get("aggregatedOutput"@) is Some {
            0
        } else {
            1
        },
    );
    let m = seq![("command"@, command)];
    law_first_member_is_found(m, 0);
}

/// The end of a turn: its token counts under either of their names, and the error that it
/// failed with.
pub proof fn law_turn_is_reported(
    params: JsonView,
    turn: JsonView,
    usage: JsonView,
    id: Seq<char>,
    input: int,
    output: int,
    error: JsonView,
    message: Seq<char>,
    goal: bool,
    state: TranslatorView,
)
    requires
        params.get("turn"@) == Some(turn),
        turn.get("id"@) == Some(JsonView::Text(id)),
        id.len() > 0 && !state.reported.contains(id),
        turn.get("tokenUsage"@) == Some(usage) || (turn.get("tokenUsage"@) is None && turn.get(
            "usage"@,
        ) == Some(usage)),
        usage.get("inputTokens"@) == Some(JsonView::Number(NumberView::Int(input))),
        usage.get("outputTokens"@) == Some(JsonView::Number(NumberView::Int(output))),
        0 <= input <= u64::MAX && 0 <= output <= u64::MAX && input + output > 0,
    ensures
        ({
            let t = translated("turn/completed"@, params, goal, state);
            let failed = turn.get("status"@) == Some(JsonView::Text("failed"@));
            &&& t.events.len() > 0 && t.events[0] == (EventView::Usage {
                input_tokens: input,
                output_tokens: output,
            })
            &&& !failed ==> t.events.len() == 1
            &&& failed ==> t.events.len() == 2 && t.events[1] is Error && t.terminal
            &&& failed && turn.get("error"@) == Some(error) && error.get("message"@) == Some(
                JsonView::Text(message),
            ) ==> t.events[1] == (EventView::Error { message })
            &&& t.state.reported == state.reported.insert(id)
            &&& t.state.buffers == state.buffers
        }),
{
    lemma_other_is_no_item(0);
    law_first_key_counts(
        turn->Object_0,
        seq!["tokenUsage"@, "usage"@],
        if turn.get("tokenUsage"@) is Some {
            0
        } else {
            1
        },
    );
    law_first_key_counts(
        usage->Object_0,
        seq!["inputTokens"@, "input_tokens"@, "promptTokens"@],
        0,
    );
    law_first_key_counts(
        usage->Object_0,
        seq!["outputTokens"@, "output_tokens"@, "completionTokens"@],
        0,
    );
    reveal_strlit("");
    reveal_strlit("failed");
    assert(""@.len() == 0 && "failed"@.len() == 6);
}

/// A goal ends the mission when it is complete or its budget is used up, and when it is
/// cleared; an error ends it unless it is retried.
pub proof fn law_goals_and_errors(
    params: JsonView,
    goal: JsonView,
    status: Seq<char>,
    error: JsonView,
    message: Seq<char>,
    is_goal: bool,
    state: TranslatorView,
)
    ensures
        params.get("goal"@) == Some(goal) && goal.get("status"@) == Some(JsonView::Text(status))
            ==> translated("thread/goal/updated"@, params, is_goal, state).terminal == (status
            == "complete"@ || status == "budgetLimited"@),
        translated("thread/goal/cleared"@, params, is_goal, state).terminal == is_goal,
        params.get("error"@) == Some(error) && error.get("message"@) == Some(
            JsonView::Text(message),
        ) ==> {
            let t = translated("error"@, params, is_goal, state);
            &&& t.events == seq![EventView::Error { message }]
            &&& t.terminal == (params.get("willRetry"@) != Some(JsonView::Bool(true)))
        },
        translated("thread/goal/updated"@, params, is_goal, state).events.len() == 0,
        translated("thread/goal/cleared"@, params, is_goal, state).events.len() == 0,
{
    lemma_methods_differ();
    lemma_other_is_no_item(1);
    lemma_other_is_no_item(2);
    lemma_other_is_no_item(3);
}

/// Notifications of other methods lead to nothing.
pub proof fn law_other_notifications_are_passed_over(
    method: Seq<char>,
    params: JsonView,
    goal: bool,
    state: TranslatorView,
)
    requires
        !is_method(method),
    ensures
        ({
            let t = translated(method, params, goal, state);
            t.events.len() == 0 && !t.terminal && t.state == state
        }),
{
    assert(item_methods()[0] == "item/agentMessage/delta"@);
    assert(item_methods()[1] == "item/reasoning/textDelta"@);
    assert(item_methods()[2] == "item/reasoning/summaryTextDelta"@);
    assert(item_methods()[3] == "item/started"@);
    assert(item_methods()[4] == "item/completed"@);
    assert(other_methods()[0] == "turn/completed"@);
    assert(other_methods()[1] == "thread/goal/updated"@);
    assert(other_methods()[2] == "thread/goal/cleared"@);
    assert(other_methods()[3] == "error"@);
}

/// What the server asks is approved, but for new tokens, which it cannot have.
pub proof fn law_server_is_answered(method: Seq<char>)
    ensures
        method == "account/chatgptAuthTokens/refresh"@ ==> auto_approval(method) == JsonView::Null,
        method != "account/chatgptAuthTokens/refresh"@ ==> auto_approval(method).get("decision"@)
            == Some(JsonView::Text("approve"@)),
{
    let m = seq![("decision"@, JsonView::Text("approve"@))];
    law_first_member_is_found(m, 0);
}

/// The start of a mission, step by step, with what is handed over at each: a message that
/// asks for a goal sets it, any other is a turn, word for word.
pub proof fn law_start_of_a_mission(
    p: StartProgress,
    cfg: CodexConfig,
    session: Session,
    message: Seq<char>,
    rest: Seq<char>,
    a: StartAction,
)
    requires
        start_follows(p, cfg, session, message, a),
    ensures
        p is Spawned ==> a is Initialize && a->Initialize_client@ == "sandboxed-sh"@
            && a->Initialize_version@ == "1.2.0"@,
        p matches StartProgress::Initialized { result: Ok(_) } ==> a is StartThread
            && a->StartThread_model == session.model && a->StartThread_cwd == Some(
            session.directory,
        ) && a->StartThread_reasoning_effort == cfg.model_effort,
        p matches StartProgress::ThreadStarted { result: Ok(id) } ==> a is TakeInbound
            && a->TakeInbound_thread_id == id,
        p matches StartProgress::InboundTaken { thread_id, taken } ==> {
            &&& !taken ==> a is Fail
            &&& taken && message == "/goal "@ + rest && trimmed(rest).len() > 0 ==> a is SetGoal
                && a->SetGoal_thread_id == thread_id && a->SetGoal_objective@ == trimmed(rest)
            &&& taken && message == "/goal "@ + rest && trimmed(rest).len() == 0 ==> a is Fail
            &&& taken && !has_prefix(trim_front(message, CharSet::Whitespace), "/goal "@)
                ==> a is StartTurn && a->StartTurn_thread_id == thread_id && a->StartTurn_text@
                == message
        },
        p matches StartProgress::GoalSet { result: Ok(_) } ==> a == (StartAction::Run {
            goal: true,
        }),
        p matches StartProgress::TurnStarted { result: Ok(_) } ==> a == (StartAction::Run {
            goal: false,
        }),
        p matches StartProgress::Initialized { result: Err(e) } ==> a is Fail && a->Fail_message@
            == "codex app-server initialize failed: "@ + e@,
        p matches StartProgress::ThreadStarted { result: Err(e) } ==> a is Fail && a->Fail_message@
            == "codex thread/start failed: "@ + e@,
        p matches StartProgress::GoalSet { result: Err(e) } ==> a is Fail && a->Fail_message@
            == "codex thread/goal/set failed: "@ + e@,
        p matches StartProgress::TurnStarted { result: Err(e) } ==> a is Fail && a->Fail_message@
            == "codex turn/start failed: "@ + e@,
{
    law_goal_prefix_is_stripped_once(rest);
}

/// Counts, arguments and results may go by several names, of which the first that is there
/// counts.
pub proof fn law_names_of_members(
    turn: JsonView,
    usage: JsonView,
    input: int,
    output: int,
    item: JsonView,
    v: JsonView,
)
    ensures
        ({
            let count = |k: Seq<char>| usage.get(k);
            let n = |x: int| Some(JsonView::Number(NumberView::Int(x)));
            let counted = 0 <= input <= u64::MAX && 0 <= output <= u64::MAX && input + output > 0
                && turn.get("tokenUsage"@) == Some(usage) && count("inputTokens"@) is None && count(
                "outputTokens"@,
            ) is None && (count("input_tokens"@) == n(input) || count("input_tokens"@) is None
                && count("promptTokens"@) == n(input)) && (count("output_tokens"@) == n(output)
                || count("output_tokens"@) is None && count("completionTokens"@) == n(output));
            counted ==> turn_usage(turn) == seq![
                EventView::Usage { input_tokens: input, output_tokens: output },
            ]
        }),
        item.get("type"@) == Some(JsonView::Text("toolCall"@)) && item.get("arguments"@) is None && (
        item.get("args"@) == Some(v) || item.get("args"@) is None && item.get("input"@) == Some(v))
            ==> item_events(item, true).len() == 1 && item_events(item, true)[0] is ToolCall
            && item_events(item, true)[0]->ToolCall_args == v,
        item.get("type"@) == Some(JsonView::Text("toolCall"@)) && item.get("result"@) is None
            && item.get("output"@) == Some(v) ==> item_events(item, false).len() == 1
            && item_events(item, false)[0] is ToolResult && item_events(
            item,
            false,
        )[0]->ToolResult_result == v,
{
    if turn is Object && usage is Object {
        let u = usage->Object_0;
        if turn.get("tokenUsage"@) == Some(usage) {
            law_first_key_counts(turn->Object_0, seq!["tokenUsage"@, "usage"@], 0);
        }
        let ik = seq!["inputTokens"@, "input_tokens"@, "promptTokens"@];
        let ok = seq!["outputTokens"@, "output_tokens"@, "completionTokens"@];
        if usage.get("inputTokens"@) is None {
            if usage.get("input_tokens"@) is Some {
                law_first_key_counts(u, ik, 1);
            } else if usage.get("promptTokens"@) is Some {
                law_first_key_counts(u, ik, 2);
            }
        }
        if usage.get("outputTokens"@) is None {
            if usage.get("output_tokens"@) is Some {
                law_first_key_counts(u, ok, 1);
            } else if usage.get("completionTokens"@) is Some {
                law_first_key_counts(u, ok, 2);
            }
        }
    }
    if item is Object {
        let m = item->Object_0;
        let ak = seq!["arguments"@, "args"@, "input"@];
        if item.get("arguments"@) is None {
            if item.get("args"@) is Some {
                law_first_key_counts(m, ak, 1);
            } else if item.get("input"@) is Some {
                law_first_key_counts(m, ak, 2);
            }
        }
        if item.get("result"@) is None && item.get("output"@) is Some {
            law_first_key_counts(m, seq!["result"@, "output"@], 1);
        }
    }
}

/// A piece that names no item belongs to the item without a name, and nothing is passed on
/// where there is no piece.
pub proof fn law_pieces_without_an_item(
    params: JsonView,
    delta: Seq<char>,
    goal: bool,
    state: TranslatorView,
)
    ensures
        ({
            let t = translated("item/agentMessage/delta"@, params, goal, state);
            let none = Seq::<char>::empty();
            let before = if state.buffers.dom().contains(none) {
                state.buffers[none]
            } else {
                none
            };
            &&& params.get("delta"@) == Some(JsonView::Text(delta)) && params.get("itemId"@) is None
                ==> t.events == seq![EventView::TextDelta { content: delta }] && t.state.buffers
                == state.buffers.insert(none, before + delta) && t.state.reported == state.reported
            &&& params.get("delta"@) is None ==> t.events.len() == 0 && t.state == state
                && translated("item/reasoning/textDelta"@, params, goal, state).events.len() == 0
            &&& !t.terminal
        }),
{
    reveal_strlit("item/agentMessage/delta");
    reveal_strlit("item/reasoning/textDelta");
    reveal_strlit("item/reasoning/summaryTextDelta");
    reveal_strlit("");
    assert(""@ =~= Seq::<char>::empty());
    assert("item/agentMessage/delta"@.len() == 23 && "item/reasoning/textDelta"@.len() == 24
        && "item/reasoning/summaryTextDelta"@.len() == 31);
}

/// The tokens of a turn are counted under the first of their names that is there, and as none
/// where there is no such name or no number under it.
pub proof fn law_tokens_are_counted(
    usage: JsonView,
    m: Seq<(Seq<char>, JsonView)>,
    keys: Seq<Seq<char>>,
    i: int,
    n: int,
)
    requires
        usage == JsonView::Object(m),
        0 <= i <= keys.len(),
        forall|j: int| 0 <= j < i ==> lookup(m, #[trigger] keys[j]) is None,
    ensures
        i == keys.len() ==> token_count(usage, keys) == 0,
        i < keys.len() && lookup(m, keys[i]) == Some(JsonView::Number(NumberView::Int(n)))
            ==> token_count(usage, keys) == if 0 <= n <= u64::MAX {
            n
        } else {
            0
        },
        i < keys.len() && lookup(m, keys[i]) is Some && !(lookup(m, keys[i])->0 is Number)
            ==> token_count(usage, keys) == 0,
{
    if i == keys.len() || lookup(m, keys[i]) is Some {
        law_first_key_counts(m, keys, i);
    }
}

} // verus!
