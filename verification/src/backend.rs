//! What every agent backend speaks: sessions, agents and the events of a turn.
use vstd::prelude::*;

use crate::json::{Json, JsonView};

verus! {

/// An agent that a backend offers.
pub struct AgentInfo {
    pub id: String,
    pub name: String,
}

/// What a session is asked for with.
pub struct SessionConfig {
    pub directory: String,
    pub title: Option<String>,
    pub model: Option<String>,
    pub agent: Option<String>,
}

/// A session with an agent.
pub struct Session {
    pub id: String,
    pub directory: String,
    pub model: Option<String>,
    pub agent: Option<String>,
}

/// Whether `v` is what the type's own `default` gives.
pub open spec fn is_default<T: Default>(v: T) -> bool {
    call_ensures(T::default, (), v)
}

/// What happens during a turn, whichever backend runs it.
#[derive(Debug)]
pub enum ExecutionEvent {
    Thinking { content: String },
    TextDelta { content: String },
    ToolCall { id: String, name: String, args: Json },
    ToolResult { id: String, name: String, result: Json },
    TurnSummary { content: String },
    Usage { input_tokens: u64, output_tokens: u64 },
    MessageComplete { session_id: String },
    Error { message: String },
}

/// The model of an event.
pub enum EventView {
    Thinking { content: Seq<char> },
    TextDelta { content: Seq<char> },
    ToolCall { id: Seq<char>, name: Seq<char>, args: JsonView },
    ToolResult { id: Seq<char>, name: Seq<char>, result: JsonView },
    TurnSummary { content: Seq<char> },
    Usage { input_tokens: int, output_tokens: int },
    MessageComplete { session_id: Seq<char> },
    Error { message: Seq<char> },
}

impl View for ExecutionEvent {
    type V = EventView;

    open spec fn view(&self) -> EventView {
        match self {
            ExecutionEvent::Thinking { content } => EventView::Thinking { content: content@ },
            ExecutionEvent::TextDelta { content } => EventView::TextDelta { content: content@ },
            ExecutionEvent::ToolCall { id, name, args } => EventView::ToolCall {
                id: id@,
                name: name@,
                args: args@,
            },
            ExecutionEvent::ToolResult { id, name, result } => EventView::ToolResult {
                id: id@,
                name: name@,
                result: result@,
            },
            ExecutionEvent::TurnSummary { content } => EventView::TurnSummary { content: content@ },
            ExecutionEvent::Usage { input_tokens, output_tokens } => EventView::Usage {
                input_tokens: *input_tokens as int,
                output_tokens: *output_tokens as int,
            },
            ExecutionEvent::MessageComplete { session_id } => EventView::MessageComplete {
                session_id: session_id@,
            },
            ExecutionEvent::Error { message } => EventView::Error { message: message@ },
        }
    }
}

/// The models of a list of events.
pub open spec fn events_view(s: Seq<ExecutionEvent>) -> Seq<EventView> {
    Seq::new(s.len(), |i: int| s[i]@)
}

/// The event that reports token counts, where there are any to report.
pub open spec fn usage_events(input_tokens: int, output_tokens: int) -> Seq<EventView> {
    if input_tokens > 0 || output_tokens > 0 {
        seq![EventView::Usage { input_tokens, output_tokens }]
    } else {
        Seq::<EventView>::empty()
    }
}

/// Appends `event`.
pub fn emit(events: &mut Vec<ExecutionEvent>, event: ExecutionEvent)
    ensures
        events_view(final(events)@) == events_view(old(events)@).push(event@),
{
    events.push(event);
    assert(events_view(events@) =~= events_view(old(events)@).push(event@));
}

/// Appends the event that reports token counts, where there are any to report.
pub fn emit_usage(events: &mut Vec<ExecutionEvent>, input_tokens: u64, output_tokens: u64)
    ensures
        events_view(final(events)@) == events_view(old(events)@) + usage_events(
            input_tokens as int,
            output_tokens as int,
        ),
{
    if input_tokens > 0 || output_tokens > 0 {
        emit(events, ExecutionEvent::Usage { input_tokens, output_tokens });
    }
    assert(events_view(events@) =~= events_view(old(events)@) + usage_events(
        input_tokens as int,
        output_tokens as int,
    ));
}

/// Token counts are reported as they are, where there are any.
pub proof fn law_counts_are_reported(input: int, output: int)
    ensures
        input > 0 || output > 0 ==> usage_events(input, output) == seq![
            EventView::Usage { input_tokens: input, output_tokens: output },
        ],
        input <= 0 && output <= 0 ==> usage_events(input, output).len() == 0,
{
}

} // verus!
