//! Streaming the answer of a mission to a Telegram chat: one message that is
//! edited as the answer grows, and its final form.
use vstd::prelude::*;

use crate::telegram_html::{
    chunk_chars, chunk_html, chunks, concatenated, edit_and_overflow, html_of,
    law_chunks_lose_nothing, law_message_holds_the_text, truncate_for_telegram, MAX_MESSAGE_CHARS,
};
use crate::telegram_send::{
    address_parts, addressed, message_parts, parts_view, MessagePart, PartView,
};
use crate::text::{cat2, cat3};

verus! {

/// How long an answer is waited for, in nanoseconds.
pub const RESPONSE_TIMEOUT_NANOS: u64 = 300_000_000_000;

/// The least time between two edits of a message, in nanoseconds.
pub const EDIT_INTERVAL_NANOS: u64 = 1_500_000_000;

/// A file that goes with an answer.
pub struct SharedFile {
    pub name: String,
    pub url: String,
    pub content_type: String,
}

/// What a mission reports, as far as it matters to a chat. A piece of text holds
/// the whole text so far.
pub enum AgentEvent {
    TextDelta { content: String, mission_id: Option<u128> },
    AssistantMessage {
        content: String,
        mission_id: Option<u128>,
        shared_files: Option<Vec<SharedFile>>,
    },
    Error { message: String, mission_id: Option<u128> },
    Thinking { mission_id: Option<u128> },
    Other,
}

/// What can happen while an answer is waited for.
pub enum StreamInput {
    Event(AgentEvent),
    /// Some events were missed.
    Lagged,
    /// No further event will come.
    Closed,
    /// It is time to renew the typing indicator.
    TypingTick,
}

/// What is done next.
#[allow(inconsistent_fields)]
pub enum StreamAction {
    /// Nothing.
    Wait,
    /// The typing indicator is sent.
    Typing,
    /// The message is edited. `edit_done` is told when that is over.
    Edit { message_id: i64, html: String },
    /// The first message is sent. `first_sent` is told what came of it.
    SendFirst { text: String, reply_to: Option<i64> },
    /// The message is edited for the last time; where that fails `fallback` is sent
    /// in its place. Then come `overflow`, which did not go into the message, and the
    /// files.
    FinishEdit {
        message_id: i64,
        html: String,
        fallback: Vec<MessagePart>,
        overflow: Vec<MessagePart>,
        files: Option<Vec<SharedFile>>,
    },
    /// The whole answer is sent, its first message as a reply. Where that fails so
    /// does the stream. Then come the files.
    FinishSend { parts: Vec<MessagePart>, files: Option<Vec<SharedFile>> },
    /// The message is edited to show an error, and the stream ends.
    FinishErrorEdit { message_id: i64, html: String },
    /// An error is sent as a reply, and the stream ends.
    FinishErrorSend { text: String, reply_to: i64 },
    /// The stream fails.
    Fail { message: String },
}

/// An answer that is on its way to a chat.
pub struct ResponseStream {
    mission_id: u128,
    reply_to: i64,
    deadline: u64,
    sent_message_id: Option<i64>,
    accumulated_text: String,
    last_edit: u64,
}

/// The model of an answer that is on its way.
pub struct StreamView {
    pub mission_id: u128,
    pub reply_to: i64,
    pub deadline: u64,
    pub sent: Option<i64>,
    pub text: Seq<char>,
    pub last_edit: u64,
}

impl View for ResponseStream {
    type V = StreamView;

    closed spec fn view(&self) -> StreamView {
        StreamView {
            mission_id: self.mission_id,
            reply_to: self.reply_to,
            deadline: self.deadline,
            sent: self.sent_message_id,
            text: self.accumulated_text@,
            last_edit: self.last_edit,
        }
    }
}

/// The mission of an event.
pub open spec fn event_mission(e: AgentEvent) -> Option<u128> {
    match e {
        AgentEvent::TextDelta { mission_id, .. } => mission_id,
        AgentEvent::AssistantMessage { mission_id, .. } => mission_id,
        AgentEvent::Error { mission_id, .. } => mission_id,
        AgentEvent::Thinking { mission_id } => mission_id,
        AgentEvent::Other => None,
    }
}

/// A text as one message.
pub open spec fn shown(text: Seq<char>) -> Seq<char> {
    chunk_html(text, MAX_MESSAGE_CHARS as int, "..."@)
}

/// What does not go into the message that shows a text.
pub open spec fn not_shown(text: Seq<char>) -> Seq<Seq<char>> {
    chunks(text.skip(chunk_chars(text, MAX_MESSAGE_CHARS as int, "..."@.len() as int)))
}

/// Whether enough time has passed since the last edit.
pub open spec fn edit_due(s: StreamView, now: u64) -> bool {
    now >= s.last_edit && now - s.last_edit >= EDIT_INTERVAL_NANOS
}

/// The message that shows an error below what was said before.
pub open spec fn error_text(text: Seq<char>, message: Seq<char>) -> Seq<char> {
    let error = "Error: "@ + message;
    if text.len() == 0 {
        error
    } else {
        text + "\n\n_"@ + error + "_"@
    }
}

/// Whether `a` is what is done on an event of the mission.
pub open spec fn event_action(s: StreamView, e: AgentEvent, now: u64, a: StreamAction) -> bool {
    match e {
        AgentEvent::TextDelta { content, .. } => match s.sent {
            Some(id) => if edit_due(s, now) {
                &&& a is Edit
                &&& a->Edit_message_id == id
                &&& a->Edit_html@ == shown(content@)
            } else {
                a is Wait
            },
            None => {
                &&& a is SendFirst
                &&& a->SendFirst_text@ == content@
                &&& a->SendFirst_reply_to == if s.reply_to > 0 {
                    Some(s.reply_to)
                } else {
                    None
                }
            },
        },
        AgentEvent::AssistantMessage { content, shared_files, .. } => match s.sent {
            Some(id) => {
                &&& a is FinishEdit
                &&& a->FinishEdit_message_id == id
                &&& a->FinishEdit_html@ == shown(content@)
                &&& parts_view(a->FinishEdit_fallback@) == addressed(chunks(content@), None)
                &&& parts_view(a->FinishEdit_overflow@) == addressed(not_shown(content@), None)
                &&& a->FinishEdit_files == shared_files
            },
            None => {
                &&& a is FinishSend
                &&& parts_view(a->FinishSend_parts@) == addressed(
                    chunks(content@),
                    Some(s.reply_to),
                )
                &&& a->FinishSend_files == shared_files
            },
        },
        AgentEvent::Error { message, .. } => match s.sent {
            Some(id) => {
                &&& a is FinishErrorEdit
                &&& a->FinishErrorEdit_message_id == id
                &&& a->FinishErrorEdit_html@ == shown(error_text(s.text, message@))
            },
            None => {
                &&& a is FinishErrorSend
                &&& a->FinishErrorSend_text@ == "Error: "@ + message@
                &&& a->FinishErrorSend_reply_to == s.reply_to
            },
        },
        AgentEvent::Thinking { .. } => a is Typing,
        AgentEvent::Other => a is Wait,
    }
}

/// Whether `a` is what is done on `input`.
pub open spec fn stream_action(
    s: StreamView,
    input: StreamInput,
    now: u64,
    a: StreamAction,
) -> bool {
    match input {
        StreamInput::Event(e) => if event_mission(e) == Some(s.mission_id) {
            event_action(s, e, now, a)
        } else {
            a is Wait
        },
        StreamInput::Lagged => a is Wait,
        StreamInput::Closed => a is Fail && a->Fail_message@ == "Event channel closed"@,
        StreamInput::TypingTick => if s.sent is None {
            a is Typing
        } else {
            a is Wait
        },
    }
}

/// The answer after `input`: only a piece of text changes it.
pub open spec fn stream_after(s: StreamView, input: StreamInput) -> StreamView {
    match input {
        StreamInput::Event(AgentEvent::TextDelta { content, mission_id }) => if mission_id == Some(
            s.mission_id,
        ) {
            StreamView { text: content@, ..s }
        } else {
            s
        },
        _ => s,
    }
}

/// What ends an answer that did not come in time.
pub struct Timeout {
    /// The last edit of the message, where there is anything to show.
    pub edit: Option<(i64, String)>,
    pub message: String,
}

fn same_mission(mission_id: Option<u128>, ours: u128) -> (r: bool)
    ensures
        r == (mission_id == Some(ours)),
{
    match mission_id {
        Some(id) => id == ours,
        None => false,
    }
}

impl ResponseStream {
    /// Starts to wait for the answer of a mission.
    pub fn new(mission_id: u128, reply_to: i64, now: u64) -> (r: Self)
        requires
            now + RESPONSE_TIMEOUT_NANOS <= u64::MAX,
        ensures
            r@.mission_id == mission_id,
            r@.reply_to == reply_to,
            r@.deadline == now + RESPONSE_TIMEOUT_NANOS,
            r@.sent is None,
            r@.text.len() == 0,
            r@.last_edit == now,
    {
        ResponseStream {
            mission_id,
            reply_to,
            deadline: now + RESPONSE_TIMEOUT_NANOS,
            sent_message_id: None,
            accumulated_text: String::new(),
            last_edit: now,
        }
    }

    /// Whether the answer is overdue, and what ends it then: the text so far is shown
    /// as timed out.
    pub fn check_deadline(&self, now: u64) -> (r: Option<Timeout>)
        ensures
            r is Some == (now >= self@.deadline),
            r matches Some(t) ==> {
                &&& t.message@ == "Timeout waiting for agent response"@
                &&& match t.edit {
                    Some((id, html)) => self@.sent == Some(id) && self@.text.len() > 0 && html@
                        == shown(self@.text + "...\n\n_(timed out)_"@),
                    None => self@.sent is None || self@.text.len() == 0,
                }
            },
    {
        if now < self.deadline {
            return None;
        }
        let edit = match self.sent_message_id {
            Some(id) => if self.accumulated_text.as_str().is_empty() {
                None
            } else {
                let text = cat2(self.accumulated_text.as_str(), "...\n\n_(timed out)_");
                Some((id, truncate_for_telegram(text.as_str()).html))
            },
            None => None,
        };
        Some(Timeout { edit, message: "Timeout waiting for agent response".to_string() })
    }

    fn on_event(&mut self, event: AgentEvent, now: u64) -> (r: StreamAction)
        requires
            event_mission(event) == Some(old(self)@.mission_id),
        ensures
            event_action(old(self)@, event, now, r),
            final(self)@ == stream_after(old(self)@, StreamInput::Event(event)),
    {
        match event {
            AgentEvent::TextDelta { content, .. } => {
                self.accumulated_text = content;
                match self.sent_message_id {
                    Some(id) => if now >= self.last_edit && now - self.last_edit
                        >= EDIT_INTERVAL_NANOS {
                        let display = truncate_for_telegram(self.accumulated_text.as_str());
                        StreamAction::Edit { message_id: id, html: display.html }
                    } else {
                        StreamAction::Wait
                    },
                    None => {
                        let reply_to = if self.reply_to > 0 {
                            Some(self.reply_to)
                        } else {
                            None
                        };
                        StreamAction::SendFirst { text: self.accumulated_text.clone(), reply_to }
                    },
                }
            },
            AgentEvent::AssistantMessage { content, shared_files, .. } => {
                match self.sent_message_id {
                    Some(id) => {
                        let display = edit_and_overflow(content.as_str());
                        StreamAction::FinishEdit {
                            message_id: id,
                            html: display.html,
                            fallback: message_parts(content.as_str(), None),
                            overflow: address_parts(&display.rest, None),
                            files: shared_files,
                        }
                    },
                    None => StreamAction::FinishSend {
                        parts: message_parts(content.as_str(), Some(self.reply_to)),
                        files: shared_files,
                    },
                }
            },
            AgentEvent::Error { message, .. } => {
                let error = cat2("Error: ", message.as_str());
                match self.sent_message_id {
                    Some(id) => {
                        let text = if self.accumulated_text.as_str().is_empty() {
                            error
                        } else {
                            let mut t = cat3(
                                self.accumulated_text.as_str(),
                                "\n\n_",
                                error.as_str(),
                            );
                            t.push_str("_");
                            t
                        };
                        let display = truncate_for_telegram(text.as_str());
                        StreamAction::FinishErrorEdit { message_id: id, html: display.html }
                    },
                    None => StreamAction::FinishErrorSend { text: error, reply_to: self.reply_to },
                }
            },
            AgentEvent::Thinking { .. } => StreamAction::Typing,
            AgentEvent::Other => StreamAction::Wait,
        }
    }

    /// What is done on `input`.
    pub fn step(&mut self, input: StreamInput, now: u64) -> (r: StreamAction)
        ensures
            stream_action(old(self)@, input, now, r),
            final(self)@ == stream_after(old(self)@, input),
    {
        match input {
            StreamInput::Event(event) => {
                let mission_id = match &event {
                    AgentEvent::TextDelta { mission_id, .. } => *mission_id,
                    AgentEvent::AssistantMessage { mission_id, .. } => *mission_id,
                    AgentEvent::Error { mission_id, .. } => *mission_id,
                    AgentEvent::Thinking { mission_id } => *mission_id,
                    AgentEvent::Other => None,
                };
                if same_mission(mission_id, self.mission_id) {
                    self.on_event(event, now)
                } else {
                    StreamAction::Wait
                }
            },
            StreamInput::Lagged => StreamAction::Wait,
            StreamInput::Closed => StreamAction::Fail {
                message: "Event channel closed".to_string(),
            },
            StreamInput::TypingTick => if self.sent_message_id.is_none() {
                StreamAction::Typing
            } else {
                StreamAction::Wait
            },
        }
    }

    /// Records the first message, where it could be sent.
    pub fn first_sent(&mut self, message_id: Option<i64>, now: u64)
        ensures
            final(self)@ == match message_id {
                Some(id) => StreamView { sent: Some(id), last_edit: now, ..old(self)@ },
                None => old(self)@,
            },
    {
        if let Some(id) = message_id {
            self.sent_message_id = Some(id);
            self.last_edit = now;
        }
    }

    /// Records the time of an edit, whether or not it was accepted.
    pub fn edit_done(&mut self, now: u64)
        ensures
            final(self)@ == (StreamView { last_edit: now, ..old(self)@ }),
    {
        self.last_edit = now;
    }
}

// ---------------------------------------------------------------------------
// Laws
// ---------------------------------------------------------------------------

/// Events of other missions are not acted on.
pub proof fn law_other_missions_are_ignored(
    s: StreamView,
    e: AgentEvent,
    now: u64,
    a: StreamAction,
)
    requires
        event_mission(e) != Some(s.mission_id),
        stream_action(s, StreamInput::Event(e), now, a),
    ensures
        a is Wait,
        stream_after(s, StreamInput::Event(e)) == s,
{
}

/// Edits are throttled: between an edit and the next there is at least the interval.
pub proof fn law_edits_are_throttled(
    s: StreamView,
    edited: u64,
    input: StreamInput,
    now: u64,
    a: StreamAction,
)
    requires
        s.last_edit == edited,
        stream_action(s, input, now, a),
        a is Edit,
    ensures
        now >= edited + EDIT_INTERVAL_NANOS,
{
}

/// Once a message was sent, no further first message is, and the typing indicator is
/// no longer renewed.
pub proof fn law_one_first_message(s: StreamView, input: StreamInput, now: u64, a: StreamAction)
    requires
        s.sent is Some,
        stream_action(s, input, now, a),
    ensures
        !(a is SendFirst),
        input is TypingTick ==> a is Wait,
        stream_after(s, input).sent == s.sent,
{
}

/// The final answer is sent whole: one that was begun is edited to it, and what does not go
/// into the message follows; else it is sent in as many messages as it takes, the first of
/// them as a reply. Its files follow.
pub proof fn law_final_answer_is_sent(
    s: StreamView,
    content: String,
    files: Option<Vec<SharedFile>>,
    now: u64,
    a: StreamAction,
)
    requires
        stream_action(
            s,
            StreamInput::Event(
                AgentEvent::AssistantMessage {
                    content,
                    mission_id: Some(s.mission_id),
                    shared_files: files,
                },
            ),
            now,
            a,
        ),
    ensures
        s.sent is None ==> {
            &&& a is FinishSend && a->FinishSend_files == files
            &&& concatenated(part_texts(a->FinishSend_parts@)) == content@
            &&& content@.len() > 0 ==> a->FinishSend_parts@.len() > 0
                && a->FinishSend_parts@[0].reply_to == Some(s.reply_to)
            &&& forall|i: int|
                0 < i < a->FinishSend_parts@.len() ==> (
                #[trigger] a->FinishSend_parts@[i]).reply_to is None
        },
        s.sent matches Some(id) ==> {
            &&& a is FinishEdit && a->FinishEdit_message_id == id && a->FinishEdit_files == files
            &&& concatenated(part_texts(a->FinishEdit_fallback@)) == content@
            &&& html_of(content@).len() <= 4096 ==> a->FinishEdit_html@ == html_of(content@)
                && a->FinishEdit_overflow@.len() == 0
            &&& html_of(content@).len() > 4096 ==> exists|n: int|
                0 <= n < content@.len() && a->FinishEdit_html@ == #[trigger] html_of(
                    content@.take(n),
                ) + "..."@ && concatenated(part_texts(a->FinishEdit_overflow@)) == content@.skip(n)
            &&& forall|i: int|
                0 <= i < a->FinishEdit_fallback@.len() ==> (
                #[trigger] a->FinishEdit_fallback@[i]).reply_to is None
            &&& forall|i: int|
                0 <= i < a->FinishEdit_overflow@.len() ==> (
                #[trigger] a->FinishEdit_overflow@[i]).reply_to is None
        },
{
    let c = content@;
    law_chunks_lose_nothing(c);
    if s.sent is None {
        lemma_parts_of_texts(a->FinishSend_parts@, chunks(c), Some(s.reply_to));
        if c.len() > 0 && chunks(c).len() == 0 {
            assert(concatenated(chunks(c)).len() == 0);
        }
    } else {
        let n = chunk_chars(c, 4096, "..."@.len() as int);
        law_message_holds_the_text(c, 4096, "..."@);
        law_chunks_lose_nothing(c.skip(n));
        lemma_parts_of_texts(a->FinishEdit_fallback@, chunks(c), None);
        lemma_parts_of_texts(a->FinishEdit_overflow@, chunks(c.skip(n)), None);
        if html_of(c).len() <= 4096 {
            assert(c.skip(n).len() == 0);
            assert(chunks(c.skip(n)).len() == 0);
        } else {
            assert(a->FinishEdit_html@ == html_of(c.take(n)) + "..."@);
        }
    }
}

/// The texts of messages.
pub open spec fn part_texts(parts: Seq<MessagePart>) -> Seq<Seq<char>> {
    Seq::new(parts.len(), |i: int| parts[i].text@)
}

proof fn lemma_parts_of_texts(
    parts: Seq<MessagePart>,
    texts: Seq<Seq<char>>,
    reply_to: Option<i64>,
)
    requires
        parts_view(parts) == addressed(texts, reply_to),
    ensures
        part_texts(parts) == texts,
        forall|i: int|
            0 <= i < parts.len() ==> (#[trigger] parts[i]).reply_to == if i == 0 {
                reply_to
            } else {
                None
            },
{
    assert(parts_view(parts).len() == addressed(texts, reply_to).len());
    assert(parts_view(parts).len() == parts.len());
    assert(parts.len() == texts.len());
    assert forall|i: int| 0 <= i < parts.len() implies (#[trigger] parts[i]).reply_to == (if i == 0 {
        reply_to
    } else {
        None
    }) && parts[i].text@ == texts[i] by {
        assert(parts_view(parts)[i] == parts[i]@);
        assert(addressed(texts, reply_to)[i] == (PartView {
            text: texts[i],
            reply_to: if i == 0 {
                reply_to
            } else {
                None
            },
        }));
    }
    assert(part_texts(parts) =~= texts);
}

/// While an answer grows, what there is of it is shown: first in a message of its own, and
/// then by editing that message, but not before 1.5 seconds are over.
pub proof fn law_growing_answer_is_shown(
    s: StreamView,
    content: String,
    now: u64,
    a: StreamAction,
)
    requires
        stream_action(
            s,
            StreamInput::Event(
                AgentEvent::TextDelta { content, mission_id: Some(s.mission_id) },
            ),
            now,
            a,
        ),
    ensures
        s.sent is None ==> a is SendFirst && a->SendFirst_text@ == content@
            && a->SendFirst_reply_to == if s.reply_to > 0 {
            Some(s.reply_to)
        } else {
            None
        },
        s.sent matches Some(id) ==> {
            let due = now as int >= s.last_edit + 1_500_000_000;
            &&& due ==> a is Edit && a->Edit_message_id == id && (html_of(content@).len() <= 4096
                ==> a->Edit_html@ == html_of(content@))
            &&& !due ==> a is Wait
        },
        stream_after(
            s,
            StreamInput::Event(AgentEvent::TextDelta { content, mission_id: Some(s.mission_id) }),
        ) == (StreamView { text: content@, ..s }),
{
    law_message_holds_the_text(content@, 4096, "..."@);
}

/// An error ends an answer and is told: below what was said, or by itself as a reply.
pub proof fn law_error_is_told(s: StreamView, message: String, now: u64, a: StreamAction)
    requires
        stream_action(
            s,
            StreamInput::Event(AgentEvent::Error { message, mission_id: Some(s.mission_id) }),
            now,
            a,
        ),
    ensures
        s.sent is None ==> a is FinishErrorSend && a->FinishErrorSend_text@ == "Error: "@
            + message@ && a->FinishErrorSend_reply_to == s.reply_to,
        s.sent matches Some(id) ==> {
            let t = if s.text.len() == 0 {
                "Error: "@ + message@
            } else {
                s.text + "\n\n_"@ + ("Error: "@ + message@) + "_"@
            };
            &&& a is FinishErrorEdit && a->FinishErrorEdit_message_id == id
            &&& html_of(t).len() <= 4096 ==> a->FinishErrorEdit_html@ == html_of(t)
        },
{
    law_message_holds_the_text(error_text(s.text, message@), 4096, "..."@);
}

/// The other inputs: thinking and waiting show that somebody types, a closed channel ends the
/// answer, and nothing else is done.
pub proof fn law_other_inputs(s: StreamView, input: StreamInput, now: u64, a: StreamAction)
    requires
        stream_action(s, input, now, a),
    ensures
        input is Lagged ==> a is Wait,
        input is Closed ==> a is Fail && a->Fail_message@ == "Event channel closed"@,
        input is TypingTick && s.sent is None ==> a is Typing,
        input == StreamInput::Event(
            AgentEvent::Thinking { mission_id: Some(s.mission_id) },
        ) ==> a is Typing,
        input == StreamInput::Event(AgentEvent::Other) ==> a is Wait,
        !(input is Event) ==> stream_after(s, input) == s,
        RESPONSE_TIMEOUT_NANOS == 300_000_000_000,
{
}

} // verus!
