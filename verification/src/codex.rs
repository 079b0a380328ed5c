//! The Codex CLI backend: its stream of thread, turn and item events, turned
//! into backend-neutral events.
use vstd::prelude::*;

use crate::backend::{
    emit, emit_usage, events_view, is_default, usage_events, AgentInfo, EventView, ExecutionEvent,
    Session, SessionConfig,
};
use crate::json::{
    cloned_or_null, empty_object, find, find_first, find_first_text, find_str, first_some,
    first_text, group_json_view, items_view, key_views, law_first_key_counts,
    law_first_member_is_found, law_first_text_counts, law_found_member_is_there, lookup,
    lookup_first, members_view, object1, object3, opt_json, opt_ref, opt_text, or_else, or_null, or_text, text_at, Json,
    JsonView,
};
use crate::json_text::{parse_json, parsed_json};
use crate::text::{blank, is_blank, opt_string, str_eq, trimmed};
use crate::textmap::{lemma_texts_insert, texts, TextMap};

verus! {

/// How the Codex CLI is run.
pub struct CodexConfig {
    pub cli_path: String,
    pub oauth_token: Option<String>,
    pub default_model: Option<String>,
    pub model_effort: Option<String>,
    pub use_app_server: bool,
}

/// The token counts of a turn, under either of the names that Codex gives them.
pub struct CodexUsage {
    pub input_tokens: Option<u64>,
    pub output_tokens: Option<u64>,
    pub prompt_tokens: Option<u64>,
    pub completion_tokens: Option<u64>,
}

/// `a`, or `b` where there is no `a`, or 0 where there is neither.
pub open spec fn count_of(a: Option<u64>, b: Option<u64>) -> u64 {
    match a {
        Some(n) => n,
        None => match b {
            Some(n) => n,
            None => 0,
        },
    }
}

impl CodexUsage {
    /// Input and output tokens.
    pub fn normalized(&self) -> (r: (u64, u64))
        ensures
            r.0 == count_of(self.input_tokens, self.prompt_tokens),
            r.1 == count_of(self.output_tokens, self.completion_tokens),
    {
        let input: u64 = match self.input_tokens {
            Some(n) => n,
            None => match self.prompt_tokens {
                Some(n) => n,
                None => 0,
            },
        };
        let output: u64 = match self.output_tokens {
            Some(n) => n,
            None => match self.completion_tokens {
                Some(n) => n,
                None => 0,
            },
        };
        (input, output)
    }
}

/// Why a turn failed.
pub struct CodexError {
    pub message: String,
}

/// An item of a turn: a message, a thought, a tool call, a command.
pub struct CodexItem {
    pub id: String,
    pub item_type: String,
    pub data: Vec<(String, Json)>,
}

/// A line of the Codex CLI's event stream.
pub enum CodexEvent {
    ThreadStarted { thread_id: String },
    TurnStarted,
    TurnCompleted { summary: Option<String>, usage: Option<CodexUsage> },
    TurnFailed { error: CodexError },
    ItemCreated { item: CodexItem },
    ItemUpdated { item: CodexItem },
    ItemCompleted { item: CodexItem },
    Error { message: String },
    Unknown,
}

/// What an item's type means to the conversion.
#[derive(Clone, Copy, PartialEq, Eq, Structural)]
pub enum ItemKind {
    Message,
    Reasoning,
    Tool,
    ToolOutcome,
    CommandExecution,
    McpToolCall,
    Other,
}

pub open spec fn kind_of(t: Seq<char>) -> ItemKind {
    if t == "message"@ || t == "agent_message"@ || t == "assistant_message"@ {
        ItemKind::Message
    } else if t == "reasoning"@ || t == "thinking"@ {
        ItemKind::Reasoning
    } else if t == "command"@ || t == "tool"@ || t == "tool_call"@ || t == "function_call"@ {
        ItemKind::Tool
    } else if t == "tool_result"@ || t == "function_result"@ {
        ItemKind::ToolOutcome
    } else if t == "command_execution"@ {
        ItemKind::CommandExecution
    } else if t == "mcp_tool_call"@ {
        ItemKind::McpToolCall
    } else {
        ItemKind::Other
    }
}

pub fn item_kind(t: &str) -> (r: ItemKind)
    ensures
        r == kind_of(t@),
{
    if str_eq(t, "message") || str_eq(t, "agent_message") || str_eq(t, "assistant_message") {
        ItemKind::Message
    } else if str_eq(t, "reasoning") || str_eq(t, "thinking") {
        ItemKind::Reasoning
    } else if str_eq(t, "command") || str_eq(t, "tool") || str_eq(t, "tool_call") || str_eq(
        t,
        "function_call",
    ) {
        ItemKind::Tool
    } else if str_eq(t, "tool_result") || str_eq(t, "function_result") {
        ItemKind::ToolOutcome
    } else if str_eq(t, "command_execution") {
        ItemKind::CommandExecution
    } else if str_eq(t, "mcp_tool_call") {
        ItemKind::McpToolCall
    } else {
        ItemKind::Other
    }
}

// ---------------------------------------------------------------------------
// Text of an item
// ---------------------------------------------------------------------------

/// A text that is not empty.
pub open spec fn nonempty(o: Option<JsonView>) -> Option<Seq<char>> {
    match opt_text(o) {
        Some(s) => if s.len() > 0 {
            Some(s)
        } else {
            None
        },
        None => None,
    }
}

fn extract_str<'a>(value: Option<&'a Json>) -> (r: Option<&'a str>)
    ensures
        match r {
            Some(s) => nonempty(opt_ref(value)) == Some(s@),
            None => nonempty(opt_ref(value)) is None,
        },
{
    match value {
        Some(j) => match j.as_str() {
            Some(s) => if s.is_empty() {
                None
            } else {
                Some(s)
            },
            None => None,
        },
        None => None,
    }
}

/// The text that one block of a content list adds.
pub open spec fn block_text(block: JsonView, with_reasoning: bool) -> Seq<char> {
    let kind = or_text(opt_text(block.get("type"@)), ""@);
    if !with_reasoning && (kind == "reasoning"@ || kind == "thinking"@) {
        Seq::<char>::empty()
    } else {
        or_text(
            or_else(
                or_else(nonempty(block.get("text"@)), nonempty(block.get("content"@))),
                nonempty(block.get("output_text"@)),
            ),
            Seq::<char>::empty(),
        )
    }
}

/// The texts of the blocks of a content list, one after the other.
pub open spec fn blocks_text(blocks: Seq<JsonView>, with_reasoning: bool) -> Seq<char>
    decreases blocks.len(),
{
    if blocks.len() == 0 {
        Seq::<char>::empty()
    } else {
        blocks_text(blocks.drop_last(), with_reasoning) + block_text(blocks.last(), with_reasoning)
    }
}

/// The text of a content list, if it has any.
pub open spec fn content_text(content: Option<JsonView>, with_reasoning: bool) -> Option<Seq<char>> {
    match content {
        Some(JsonView::Array(blocks)) => {
            let text = blocks_text(blocks, with_reasoning);
            if text.len() > 0 {
                Some(text)
            } else {
                None
            }
        },
        _ => None,
    }
}

/// The text of an item: the first of its `text`, `content` and `output_text` that
/// is a text and not empty, else the text of its content list.
pub open spec fn item_text(
    data: Seq<(Seq<char>, JsonView)>,
    with_reasoning: bool,
) -> Option<Seq<char>> {
    or_else(
        or_else(
            or_else(nonempty(lookup(data, "text"@)), nonempty(lookup(data, "content"@))),
            nonempty(lookup(data, "output_text"@)),
        ),
        content_text(lookup(data, "content"@), with_reasoning),
    )
}

fn push_block_text(out: &mut String, block: &Json, with_reasoning: bool)
    ensures
        final(out)@ == old(out)@ + block_text(block@, with_reasoning),
{
    let kind = match block.get_str("type") {
        Some(s) => s,
        None => "",
    };
    if !with_reasoning && (str_eq(kind, "reasoning") || str_eq(kind, "thinking")) {
        assert(out@ =~= old(out)@ + Seq::<char>::empty());
        return ;
    }
    if let Some(text) = extract_str(block.get("text")) {
        out.push_str(text);
        return ;
    }
    if let Some(text) = extract_str(block.get("content")) {
        out.push_str(text);
        return ;
    }
    if let Some(text) = extract_str(block.get("output_text")) {
        out.push_str(text);
        return ;
    }
    assert(out@ =~= old(out)@ + Seq::<char>::empty());
}

fn extract_from_content(content: &Json, with_reasoning: bool) -> (r: Option<String>)
    ensures
        opt_string(r) == content_text(Some(content@), with_reasoning),
{
    broadcast use group_json_view;

    match content {
        Json::Array(blocks) => {
            let mut out = String::new();
            let ghost all = items_view(blocks@);
            let mut i: usize = 0;
            while i < blocks.len()
                invariant
                    i <= blocks@.len(),
                    all == items_view(blocks@),
                    out@ == blocks_text(all.take(i as int), with_reasoning),
                decreases blocks@.len() - i,
            {
                assert(all.take(i + 1).drop_last() == all.take(i as int));
                push_block_text(&mut out, &blocks[i], with_reasoning);
                i += 1;
            }
            assert(all.take(i as int) == all);
            if out.as_str().is_empty() {
                None
            } else {
                Some(out)
            }
        },
        _ => None,
    }
}

fn extract_text_field_internal(data: &Vec<(String, Json)>, with_reasoning: bool) -> (r: Option<
    String,
>)
    ensures
        opt_string(r) == item_text(members_view(data@), with_reasoning),
{
    if let Some(s) = extract_str(find(data, "text")) {
        return Some(s.to_string());
    }
    if let Some(s) = extract_str(find(data, "content")) {
        return Some(s.to_string());
    }
    if let Some(s) = extract_str(find(data, "output_text")) {
        return Some(s.to_string());
    }
    match find(data, "content") {
        Some(content) => extract_from_content(content, with_reasoning),
        None => None,
    }
}

/// The text of a message, without the reasoning blocks of its content list.
pub fn extract_text_field(data: &Vec<(String, Json)>) -> (r: Option<String>)
    ensures
        opt_string(r) == item_text(members_view(data@), false),
{
    extract_text_field_internal(data, false)
}

/// The text of a thought, reasoning blocks included.
pub fn extract_text_field_with_reasoning(data: &Vec<(String, Json)>) -> (r: Option<String>)
    ensures
        opt_string(r) == item_text(members_view(data@), true),
{
    extract_text_field_internal(data, true)
}

// ---------------------------------------------------------------------------
// Tools
// ---------------------------------------------------------------------------

/// The members under which a tool call may be nested, in the order in which they
/// are tried.
pub open spec fn nesting_keys() -> Seq<Seq<char>> {
    seq!["tool"@, "function"@, "call"@, "tool_call"@, "function_call"@, "toolCall"@]
}

/// The name in a nested tool call.
pub open spec fn nested_name(v: JsonView) -> Option<Seq<char>> {
    match v {
        JsonView::Object(m) => first_text(m, seq!["name"@, "tool_name"@, "command"@]),
        _ => None,
    }
}

/// The name of the tool that an item calls.
pub open spec fn tool_name_of(data: Seq<(Seq<char>, JsonView)>) -> Option<Seq<char>> {
    or_else(
        first_text(data, seq!["name"@, "tool"@, "tool_name"@, "command"@]),
        first_some(data, nesting_keys(), |v: JsonView| nested_name(v)),
    )
}

/// The arguments of a tool call as they stand in it: a value, or a value that is
/// to be read as JSON text if it can be.
pub enum ToolArgs {
    Plain(Json),
    Encoded(Json),
}

/// The model of tool arguments.
pub enum ToolArgsView {
    Plain(JsonView),
    Encoded(JsonView),
}

impl View for ToolArgs {
    type V = ToolArgsView;

    open spec fn view(&self) -> ToolArgsView {
        match self {
            ToolArgs::Plain(j) => ToolArgsView::Plain(j@),
            ToolArgs::Encoded(j) => ToolArgsView::Encoded(j@),
        }
    }
}

/// The arguments among the members of one object.
pub open spec fn own_args(m: Seq<(Seq<char>, JsonView)>) -> Option<ToolArgsView> {
    match lookup(m, "args"@) {
        Some(v) => Some(ToolArgsView::Plain(v)),
        None => match lookup(m, "arguments"@) {
            Some(v) => Some(ToolArgsView::Encoded(v)),
            None => match lookup_first(m, seq!["input"@, "params"@, "payload"@]) {
                Some(v) => Some(ToolArgsView::Plain(v)),
                None => None,
            },
        },
    }
}

pub open spec fn nested_args(v: JsonView) -> Option<ToolArgsView> {
    match v {
        JsonView::Object(m) => own_args(m),
        _ => None,
    }
}

/// The arguments of the tool call in an item.
pub open spec fn tool_args_of(data: Seq<(Seq<char>, JsonView)>) -> Option<ToolArgsView> {
    or_else(own_args(data), first_some(data, nesting_keys(), |v: JsonView| nested_args(v)))
}

/// The text of encoded arguments, where it is to be read as JSON.
pub open spec fn encoded_text(args: Option<ToolArgsView>) -> Option<Seq<char>> {
    match args {
        Some(ToolArgsView::Encoded(JsonView::Text(s))) => if blank(s) {
            None
        } else {
            Some(s)
        },
        _ => None,
    }
}

/// The arguments, given what their encoded text was read as.
pub open spec fn decoded_args(args: Option<ToolArgsView>, parsed: Option<JsonView>) -> JsonView {
    match args {
        Some(ToolArgsView::Plain(v)) => v,
        Some(ToolArgsView::Encoded(v)) => if encoded_text(args) is Some && parsed is Some {
            parsed->0
        } else {
            v
        },
        None => JsonView::Object(Seq::empty()),
    }
}

/// The members under which a result may stand, in the order in which they are tried.
pub open spec fn result_keys() -> Seq<Seq<char>> {
    seq!["result"@, "output"@, "response"@, "content"@, "data"@]
}

pub open spec fn nested_result(v: JsonView) -> Option<JsonView> {
    v.get_first(result_keys())
}

/// Whether an error is more than `null` or blank text.
pub open spec fn is_error(error: Option<JsonView>) -> bool {
    match error {
        Some(JsonView::Text(s)) => !blank(s),
        Some(JsonView::Null) => false,
        Some(_) => true,
        None => false,
    }
}

/// A result together with its error and status, where there is either.
pub open spec fn normalized_result(
    result: JsonView,
    error: Option<JsonView>,
    status: Option<JsonView>,
) -> Option<JsonView> {
    if is_error(error) || or_null(status) != JsonView::Null {
        Some(
            JsonView::Object(
                seq![
                    ("error"@, or_null(error)),
                    ("result"@, result),
                    ("status"@, or_null(status)),
                ],
            ),
        )
    } else if result == JsonView::Null {
        None
    } else {
        Some(result)
    }
}

/// The result of the tool call in an item.
pub open spec fn tool_result_of(data: Seq<(Seq<char>, JsonView)>) -> Option<JsonView> {
    normalized_result(
        or_null(
            or_else(
                lookup_first(data, result_keys()),
                first_some(data, nesting_keys(), |v: JsonView| nested_result(v)),
            ),
        ),
        lookup(data, "error"@),
        lookup(data, "status"@),
    )
}

/// The name of the tool that an MCP call calls.
pub open spec fn mcp_name_of(data: Seq<(Seq<char>, JsonView)>) -> Option<Seq<char>> {
    match (text_at(data, "server"@), text_at(data, "tool"@)) {
        (Some(server), Some(tool)) => Some("mcp__"@ + server + "__"@ + tool),
        _ => None,
    }
}

/// The arguments of an MCP call.
pub open spec fn mcp_args_of(data: Seq<(Seq<char>, JsonView)>) -> JsonView {
    match lookup_first(data, seq!["arguments"@, "args"@]) {
        Some(v) => v,
        None => JsonView::Object(Seq::empty()),
    }
}

/// The result of an MCP call.
pub open spec fn mcp_result_of(data: Seq<(Seq<char>, JsonView)>) -> Option<JsonView> {
    normalized_result(
        or_null(lookup(data, "result"@)),
        lookup(data, "error"@),
        lookup(data, "status"@),
    )
}

/// The arguments under which a command is reported as a call of `bash`.
pub open spec fn command_args(data: Seq<(Seq<char>, JsonView)>) -> JsonView {
    JsonView::Object(seq![("command"@, or_null(lookup(data, "command"@)))])
}

/// The result under which a command is reported as a call of `bash`.
pub open spec fn command_result(data: Seq<(Seq<char>, JsonView)>) -> JsonView {
    JsonView::Object(
        seq![
            ("exit_code"@, or_null(lookup(data, "exit_code"@))),
            (
                "output"@,
                or_null(lookup_first(data, seq!["aggregated_output"@, "output"@, "result"@])),
            ),
            ("status"@, or_null(lookup(data, "status"@))),
        ],
    )
}

fn name_from_object(value: &Json) -> (r: Option<String>)
    ensures
        opt_string(r) == nested_name(value@),
{
    broadcast use group_json_view;

    match value {
        Json::Object(m) => {
            let keys = ["name", "tool_name", "command"];
            assert(key_views(keys@) =~= seq!["name"@, "tool_name"@, "command"@]);
            match find_first_text(m, keys.as_slice()) {
                Some(s) => Some(s.to_string()),
                None => None,
            }
        },
        _ => None,
    }
}

/// The name of the tool that an item calls.
pub fn tool_name(data: &Vec<(String, Json)>) -> (r: Option<String>)
    ensures
        opt_string(r) == tool_name_of(members_view(data@)),
{
    let keys = ["name", "tool", "tool_name", "command"];
    assert(key_views(keys@) =~= seq!["name"@, "tool"@, "tool_name"@, "command"@]);
    match find_first_text(data, keys.as_slice()) {
        Some(s) => {
            return Some(s.to_string());
        },
        None => {},
    }
    let nesting = ["tool", "function", "call", "tool_call", "function_call", "toolCall"];
    let ghost all = key_views(nesting@);
    assert(all =~= nesting_keys());
    let ghost f = |v: JsonView| nested_name(v);
    assert(all.skip(0) == all);
    let mut i: usize = 0;
    while i < nesting.len()
        invariant
            i <= nesting@.len(),
            all == key_views(nesting@),
            f == (|v: JsonView| nested_name(v)),
            tool_name_of(members_view(data@)) == first_some(members_view(data@), all, f),
            first_some(members_view(data@), all, f) == first_some(
                members_view(data@),
                all.skip(i as int),
                f,
            ),
        decreases nesting@.len() - i,
    {
        assert(all.skip(i as int).drop_first() == all.skip(i + 1));
        if let Some(v) = find(data, nesting[i]) {
            let name = name_from_object(v);
            if name.is_some() {
                return name;
            }
        }
        i += 1;
    }
    None
}

fn own_tool_args(m: &Vec<(String, Json)>) -> (r: Option<ToolArgs>)
    ensures
        opt_args(r) == own_args(members_view(m@)),
{
    if let Some(v) = find(m, "args") {
        return Some(ToolArgs::Plain(v.clone()));
    }
    if let Some(v) = find(m, "arguments") {
        return Some(ToolArgs::Encoded(v.clone()));
    }
    let keys = ["input", "params", "payload"];
    assert(key_views(keys@) =~= seq!["input"@, "params"@, "payload"@]);
    match find_first(m, keys.as_slice()) {
        Some(v) => Some(ToolArgs::Plain(v.clone())),
        None => None,
    }
}

/// The model of optional tool arguments.
pub open spec fn opt_args(o: Option<ToolArgs>) -> Option<ToolArgsView> {
    match o {
        Some(a) => Some(a@),
        None => None,
    }
}

fn args_from_object(value: &Json) -> (r: Option<ToolArgs>)
    ensures
        opt_args(r) == nested_args(value@),
{
    broadcast use group_json_view;

    match value {
        Json::Object(m) => own_tool_args(m),
        _ => None,
    }
}

/// The arguments of the tool call in an item.
pub fn tool_args(data: &Vec<(String, Json)>) -> (r: Option<ToolArgs>)
    ensures
        opt_args(r) == tool_args_of(members_view(data@)),
{
    let own = own_tool_args(data);
    if own.is_some() {
        return own;
    }
    let nesting = ["tool", "function", "call", "tool_call", "function_call", "toolCall"];
    let ghost all = key_views(nesting@);
    assert(all =~= nesting_keys());
    let ghost f = |v: JsonView| nested_args(v);
    assert(all.skip(0) == all);
    let mut i: usize = 0;
    while i < nesting.len()
        invariant
            i <= nesting@.len(),
            all == key_views(nesting@),
            f == (|v: JsonView| nested_args(v)),
            tool_args_of(members_view(data@)) == first_some(members_view(data@), all, f),
            first_some(members_view(data@), all, f) == first_some(
                members_view(data@),
                all.skip(i as int),
                f,
            ),
        decreases nesting@.len() - i,
    {
        assert(all.skip(i as int).drop_first() == all.skip(i + 1));
        if let Some(v) = find(data, nesting[i]) {
            let args = args_from_object(v);
            if args.is_some() {
                return args;
            }
        }
        i += 1;
    }
    None
}

/// The text of encoded arguments, where it is to be read as JSON.
pub fn arguments_text(args: &Option<ToolArgs>) -> (r: Option<String>)
    ensures
        opt_string(r) == encoded_text(opt_args(*args)),
{
    match args {
        Some(ToolArgs::Encoded(Json::Text(s))) => if is_blank(s.as_str()) {
            None
        } else {
            Some(s.clone())
        },
        _ => None,
    }
}

/// The arguments, given what their encoded text was read as.
pub fn decode_args(args: Option<ToolArgs>, parsed: Option<Json>) -> (r: Json)
    ensures
        r@ == decoded_args(opt_args(args), opt_json(parsed)),
{
    let text = arguments_text(&args);
    match args {
        Some(ToolArgs::Plain(v)) => v,
        Some(ToolArgs::Encoded(v)) => match parsed {
            Some(p) => if text.is_some() {
                p
            } else {
                v
            },
            None => v,
        },
        None => empty_object(),
    }
}

fn normalize_tool_result(result: Json, error: Option<&Json>, status: Option<&Json>) -> (r: Option<
    Json,
>)
    ensures
        opt_json(r) == normalized_result(result@, opt_ref(error), opt_ref(status)),
{
    let has_error = match error {
        Some(Json::Text(s)) => !is_blank(s.as_str()),
        Some(e) => !e.is_null(),
        None => false,
    };
    let has_status = match status {
        Some(s) => !s.is_null(),
        None => false,
    };
    if has_error || has_status {
        Some(
            object3(
                "error",
                cloned_or_null(error),
                "result",
                result,
                "status",
                cloned_or_null(status),
            ),
        )
    } else if result.is_null() {
        None
    } else {
        Some(result)
    }
}

fn result_from_object(value: &Json) -> (r: Option<&Json>)
    ensures
        opt_ref(r) == nested_result(value@),
{
    let keys = ["result", "output", "response", "content", "data"];
    assert(key_views(keys@) =~= result_keys());
    value.get_first(keys.as_slice())
}

fn raw_tool_result(data: &Vec<(String, Json)>) -> (r: Json)
    ensures
        r@ == or_null(
            or_else(
                lookup_first(members_view(data@), result_keys()),
                first_some(
                    members_view(data@),
                    nesting_keys(),
                    |v: JsonView| nested_result(v),
                ),
            ),
        ),
{
    let keys = ["result", "output", "response", "content", "data"];
    assert(key_views(keys@) =~= result_keys());
    if let Some(v) = find_first(data, keys.as_slice()) {
        return v.clone();
    }
    let nesting = ["tool", "function", "call", "tool_call", "function_call", "toolCall"];
    let ghost all = key_views(nesting@);
    assert(all =~= nesting_keys());
    let ghost f = |v: JsonView| nested_result(v);
    assert(all.skip(0) == all);
    let mut i: usize = 0;
    while i < nesting.len()
        invariant
            i <= nesting@.len(),
            all == nesting_keys(),
            all == key_views(nesting@),
            f == (|v: JsonView| nested_result(v)),
            lookup_first(members_view(data@), result_keys()) is None,
            first_some(members_view(data@), all, f) == first_some(
                members_view(data@),
                all.skip(i as int),
                f,
            ),
        decreases nesting@.len() - i,
    {
        assert(all.skip(i as int).drop_first() == all.skip(i + 1));
        if let Some(v) = find(data, nesting[i]) {
            if let Some(found) = result_from_object(v) {
                return found.clone();
            }
        }
        i += 1;
    }
    Json::Null
}

/// The result of the tool call in an item.
pub fn tool_result(data: &Vec<(String, Json)>) -> (r: Option<Json>)
    ensures
        opt_json(r) == tool_result_of(members_view(data@)),
{
    normalize_tool_result(raw_tool_result(data), find(data, "error"), find(data, "status"))
}

fn mcp_tool_name(data: &Vec<(String, Json)>) -> (r: Option<String>)
    ensures
        opt_string(r) == mcp_name_of(members_view(data@)),
{
    match (find_str(data, "server"), find_str(data, "tool")) {
        (Some(server), Some(tool)) => {
            let mut name = String::new();
            name.push_str("mcp__");
            name.push_str(server);
            name.push_str("__");
            name.push_str(tool);
            assert(name@ =~= "mcp__"@ + server@ + "__"@ + tool@);
            Some(name)
        },
        _ => None,
    }
}

fn mcp_tool_args(data: &Vec<(String, Json)>) -> (r: Json)
    ensures
        r@ == mcp_args_of(members_view(data@)),
{
    let keys = ["arguments", "args"];
    assert(key_views(keys@) =~= seq!["arguments"@, "args"@]);
    match find_first(data, keys.as_slice()) {
        Some(v) => v.clone(),
        None => empty_object(),
    }
}

fn mcp_tool_result(data: &Vec<(String, Json)>) -> (r: Option<Json>)
    ensures
        opt_json(r) == mcp_result_of(members_view(data@)),
{
    normalize_tool_result(
        cloned_or_null(find(data, "result")),
        find(data, "error"),
        find(data, "status"),
    )
}

fn command_execution_args(data: &Vec<(String, Json)>) -> (r: Json)
    ensures
        r@ == command_args(members_view(data@)),
{
    object1("command", cloned_or_null(find(data, "command")))
}

fn command_execution_result(data: &Vec<(String, Json)>) -> (r: Json)
    ensures
        r@ == command_result(members_view(data@)),
{
    let keys = ["aggregated_output", "output", "result"];
    assert(key_views(keys@) =~= seq!["aggregated_output"@, "output"@, "result"@]);
    object3(
        "exit_code",
        cloned_or_null(find(data, "exit_code")),
        "output",
        cloned_or_null(find_first(data, keys.as_slice())),
        "status",
        cloned_or_null(find(data, "status")),
    )
}

// ---------------------------------------------------------------------------
// Events
// ---------------------------------------------------------------------------

/// What an event leads to: the events to emit, and what is remembered of each item.
pub struct Conversion {
    pub events: Seq<EventView>,
    pub cache: Map<Seq<char>, Seq<char>>,
}

/// A message item: its whole text, unless it is empty or was the last one seen.
pub open spec fn snapshot(
    cache: Map<Seq<char>, Seq<char>>,
    id: Seq<char>,
    text: Seq<char>,
) -> Conversion {
    let seen = cache.dom().contains(id) && cache[id] == text;
    Conversion {
        events: if text.len() > 0 && !seen {
            seq![EventView::TextDelta { content: text }]
        } else {
            Seq::empty()
        },
        cache: cache.insert(id, text),
    }
}

/// A reasoning item: its whole text, unless it was the last one seen.
pub open spec fn thought(
    cache: Map<Seq<char>, Seq<char>>,
    id: Seq<char>,
    text: Seq<char>,
) -> Conversion {
    if cache.dom().contains(id) && cache[id] == text {
        Conversion { events: Seq::empty(), cache }
    } else {
        Conversion {
            events: seq![EventView::Thinking { content: text }],
            cache: cache.insert(id, text),
        }
    }
}

/// The key under which it is remembered that an item's tool call was emitted.
pub open spec fn call_key(id: Seq<char>) -> Seq<char> {
    "tool_call:"@ + id
}

pub open spec fn call_emitted(cache: Map<Seq<char>, Seq<char>>, id: Seq<char>) -> bool {
    cache.dom().contains(call_key(id))
}

/// The memory once the tool call of `id` is remembered.
pub open spec fn with_call(cache: Map<Seq<char>, Seq<char>>, id: Seq<char>) -> Map<
    Seq<char>,
    Seq<char>,
> {
    if call_emitted(cache, id) {
        cache
    } else {
        cache.insert(call_key(id), "1"@)
    }
}

/// The tool call of an item, unless it was emitted before.
pub open spec fn call_once(
    cache: Map<Seq<char>, Seq<char>>,
    id: Seq<char>,
    name: Seq<char>,
    args: JsonView,
) -> Seq<EventView> {
    if call_emitted(cache, id) {
        Seq::empty()
    } else {
        seq![EventView::ToolCall { id, name, args }]
    }
}

/// A message or reasoning item, whether it was created, updated or completed.
pub open spec fn spoken(
    kind: ItemKind,
    id: Seq<char>,
    data: Seq<(Seq<char>, JsonView)>,
    cache: Map<Seq<char>, Seq<char>>,
) -> Conversion {
    match kind {
        ItemKind::Message => match item_text(data, false) {
            Some(text) => snapshot(cache, id, text),
            None => Conversion { events: Seq::empty(), cache },
        },
        ItemKind::Reasoning => match item_text(data, true) {
            Some(text) => thought(cache, id, text),
            None => Conversion { events: Seq::empty(), cache },
        },
        _ => Conversion { events: Seq::empty(), cache },
    }
}

/// An item that was created or updated.
pub open spec fn opened(
    item_type: Seq<char>,
    id: Seq<char>,
    data: Seq<(Seq<char>, JsonView)>,
    parsed: Option<JsonView>,
    cache: Map<Seq<char>, Seq<char>>,
) -> Conversion {
    let kind = kind_of(item_type);
    match kind {
        ItemKind::Tool => match tool_name_of(data) {
            Some(name) => Conversion {
                events: seq![
                    EventView::ToolCall {
                        id,
                        name,
                        args: decoded_args(tool_args_of(data), parsed),
                    },
                ],
                cache,
            },
            None => Conversion { events: Seq::empty(), cache },
        },
        ItemKind::CommandExecution => Conversion {
            events: call_once(cache, id, "bash"@, command_args(data)),
            cache: with_call(cache, id),
        },
        ItemKind::McpToolCall => match mcp_name_of(data) {
            Some(name) => Conversion {
                events: seq![EventView::ToolCall { id, name, args: mcp_args_of(data) }],
                cache: with_call(cache, id),
            },
            None => Conversion { events: Seq::empty(), cache },
        },
        _ => spoken(kind, id, data, cache),
    }
}

/// An item that was completed.
pub open spec fn closed_item(
    item_type: Seq<char>,
    id: Seq<char>,
    data: Seq<(Seq<char>, JsonView)>,
    cache: Map<Seq<char>, Seq<char>>,
) -> Conversion {
    let kind = kind_of(item_type);
    match kind {
        ItemKind::Tool | ItemKind::ToolOutcome => match tool_name_of(data) {
            Some(name) => Conversion {
                events: seq![
                    EventView::ToolResult { id, name, result: or_null(tool_result_of(data)) },
                ],
                cache,
            },
            None => Conversion { events: Seq::empty(), cache },
        },
        ItemKind::CommandExecution => Conversion {
            events: call_once(cache, id, "bash"@, command_args(data)).push(
                EventView::ToolResult { id, name: "bash"@, result: command_result(data) },
            ),
            cache: with_call(cache, id),
        },
        ItemKind::McpToolCall => match mcp_name_of(data) {
            Some(name) => Conversion {
                events: call_once(cache, id, name, mcp_args_of(data)) + match mcp_result_of(data) {
                    Some(result) => seq![EventView::ToolResult { id, name, result }],
                    None => Seq::empty(),
                },
                cache: with_call(cache, id),
            },
            None => Conversion { events: Seq::empty(), cache },
        },
        _ => spoken(kind, id, data, cache),
    }
}

/// A completed turn: its summary, unless it is blank, and its token counts.
pub open spec fn turn_completed(summary: Option<Seq<char>>, usage: Option<CodexUsage>) -> Seq<
    EventView,
> {
    let first = match summary {
        Some(text) => if blank(text) {
            Seq::empty()
        } else {
            seq![EventView::TurnSummary { content: text }]
        },
        None => Seq::empty(),
    };
    let second = match usage {
        Some(u) => usage_events(
            count_of(u.input_tokens, u.prompt_tokens) as int,
            count_of(u.output_tokens, u.completion_tokens) as int,
        ),
        None => Seq::empty(),
    };
    first + second
}

/// What an event leads to, given what the encoded arguments in it were read as.
pub open spec fn converted(
    event: CodexEvent,
    parsed: Option<JsonView>,
    cache: Map<Seq<char>, Seq<char>>,
) -> Conversion {
    match event {
        CodexEvent::ThreadStarted { .. } | CodexEvent::TurnStarted | CodexEvent::Unknown => {
            Conversion { events: Seq::empty(), cache }
        },
        CodexEvent::TurnCompleted { summary, usage } => Conversion {
            events: turn_completed(opt_string(summary), usage),
            cache,
        },
        CodexEvent::TurnFailed { error } => Conversion {
            events: seq![EventView::Error { message: error.message@ }],
            cache,
        },
        CodexEvent::Error { message } => Conversion {
            events: seq![EventView::Error { message: message@ }],
            cache,
        },
        CodexEvent::ItemCreated { item } | CodexEvent::ItemUpdated { item } => opened(
            item.item_type@,
            item.id@,
            members_view(item.data@),
            parsed,
            cache,
        ),
        CodexEvent::ItemCompleted { item } => closed_item(
            item.item_type@,
            item.id@,
            members_view(item.data@),
            cache,
        ),
    }
}

/// The text of encoded tool arguments that an event holds.
pub open spec fn encoded_in(event: CodexEvent) -> Option<Seq<char>> {
    match event {
        CodexEvent::ItemCreated { item } | CodexEvent::ItemUpdated { item } => if kind_of(
            item.item_type@,
        ) == ItemKind::Tool {
            encoded_text(tool_args_of(members_view(item.data@)))
        } else {
            None
        },
        _ => None,
    }
}

/// What `serde_json` reads an optional text as.
pub open spec fn parsed_opt(text: Option<Seq<char>>) -> Option<JsonView> {
    match text {
        Some(t) => parsed_json(t),
        None => None,
    }
}

fn last_seen(cache: &TextMap<String>, id: &str, text: &str) -> (r: bool)
    ensures
        r == (texts(cache@).dom().contains(id@) && texts(cache@)[id@] == text@),
{
    match cache.get(id) {
        Some(s) => str_eq(s.as_str(), text),
        None => false,
    }
}

fn remember(cache: &mut TextMap<String>, id: &str, text: &str)
    ensures
        texts(final(cache)@) == texts(old(cache)@).insert(id@, text@),
{
    let s = text.to_string();
    proof {
        lemma_texts_insert(cache@, id@, s);
    }
    cache.insert(id.to_string(), s);
}

fn emit_text_snapshot(
    results: &mut Vec<ExecutionEvent>,
    cache: &mut TextMap<String>,
    item_id: &str,
    text: &str,
)
    ensures
        events_view(final(results)@) == events_view(old(results)@) + snapshot(
            texts(old(cache)@),
            item_id@,
            text@,
        ).events,
        texts(final(cache)@) == snapshot(texts(old(cache)@), item_id@, text@).cache,
{
    if !text.is_empty() && !last_seen(cache, item_id, text) {
        emit(results, ExecutionEvent::TextDelta { content: text.to_string() });
    }
    remember(cache, item_id, text);
    assert(events_view(results@) =~= events_view(old(results)@) + snapshot(
        texts(old(cache)@),
        item_id@,
        text@,
    ).events);
}

fn emit_thinking_if_changed(
    results: &mut Vec<ExecutionEvent>,
    cache: &mut TextMap<String>,
    item_id: &str,
    text: &str,
)
    ensures
        events_view(final(results)@) == events_view(old(results)@) + thought(
            texts(old(cache)@),
            item_id@,
            text@,
        ).events,
        texts(final(cache)@) == thought(texts(old(cache)@), item_id@, text@).cache,
{
    if !last_seen(cache, item_id, text) {
        emit(results, ExecutionEvent::Thinking { content: text.to_string() });
        remember(cache, item_id, text);
    }
    assert(events_view(results@) =~= events_view(old(results)@) + thought(
        texts(old(cache)@),
        item_id@,
        text@,
    ).events);
}

/// Remembers that the tool call of `item_id` was emitted, and says whether it was
/// before.
fn mark_tool_call_emitted(cache: &mut TextMap<String>, item_id: &str) -> (r: bool)
    ensures
        r == call_emitted(texts(old(cache)@), item_id@),
        texts(final(cache)@) == with_call(texts(old(cache)@), item_id@),
{
    let mut key = String::new();
    key.push_str("tool_call:");
    key.push_str(item_id);
    assert(key@ =~= call_key(item_id@));
    if cache.contains(key.as_str()) {
        true
    } else {
        remember(cache, key.as_str(), "1");
        false
    }
}

fn emit_spoken(
    results: &mut Vec<ExecutionEvent>,
    cache: &mut TextMap<String>,
    kind: ItemKind,
    item: &CodexItem,
)
    ensures
        events_view(final(results)@) == events_view(old(results)@) + spoken(
            kind,
            item.id@,
            members_view(item.data@),
            texts(old(cache)@),
        ).events,
        texts(final(cache)@) == spoken(
            kind,
            item.id@,
            members_view(item.data@),
            texts(old(cache)@),
        ).cache,
{
    match kind {
        ItemKind::Message => {
            if let Some(text) = extract_text_field(&item.data) {
                emit_text_snapshot(results, cache, item.id.as_str(), text.as_str());
            }
        },
        ItemKind::Reasoning => {
            if let Some(text) = extract_text_field_with_reasoning(&item.data) {
                emit_thinking_if_changed(results, cache, item.id.as_str(), text.as_str());
            }
        },
        _ => {},
    }
    assert(events_view(results@) =~= events_view(old(results)@) + spoken(
        kind,
        item.id@,
        members_view(item.data@),
        texts(old(cache)@),
    ).events);
}

fn emit_call_once(
    results: &mut Vec<ExecutionEvent>,
    cache: &mut TextMap<String>,
    id: &str,
    name: &str,
    args: Json,
)
    ensures
        events_view(final(results)@) == events_view(old(results)@) + call_once(
            texts(old(cache)@),
            id@,
            name@,
            args@,
        ),
        texts(final(cache)@) == with_call(texts(old(cache)@), id@),
{
    if !mark_tool_call_emitted(cache, id) {
        emit(
            results,
            ExecutionEvent::ToolCall { id: id.to_string(), name: name.to_string(), args },
        );
    }
    assert(events_view(results@) =~= events_view(old(results)@) + call_once(
        texts(old(cache)@),
        id@,
        name@,
        args@,
    ));
}

fn convert_opened(
    item: CodexItem,
    parsed: Option<Json>,
    cache: &mut TextMap<String>,
) -> (r: Vec<ExecutionEvent>)
    ensures
        ({
            let c = opened(
                item.item_type@,
                item.id@,
                members_view(item.data@),
                opt_json(parsed),
                texts(old(cache)@),
            );
            events_view(r@) == c.events && texts(final(cache)@) == c.cache
        }),
{
    let mut results: Vec<ExecutionEvent> = Vec::new();
    assert(events_view(results@) =~= Seq::empty());
    let kind = item_kind(item.item_type.as_str());
    match kind {
        ItemKind::Tool => {
            if let Some(name) = tool_name(&item.data) {
                let args = decode_args(tool_args(&item.data), parsed);
                emit(&mut results, ExecutionEvent::ToolCall { id: item.id.clone(), name, args });
            }
        },
        ItemKind::CommandExecution => {
            let args = command_execution_args(&item.data);
            emit_call_once(&mut results, cache, item.id.as_str(), "bash", args);
        },
        ItemKind::McpToolCall => {
            if let Some(name) = mcp_tool_name(&item.data) {
                let args = mcp_tool_args(&item.data);
                emit(&mut results, ExecutionEvent::ToolCall { id: item.id.clone(), name, args });
                mark_tool_call_emitted(cache, item.id.as_str());
            }
        },
        _ => {
            emit_spoken(&mut results, cache, kind, &item);
        },
    }
    assert(events_view(results@) =~= opened(
        item.item_type@,
        item.id@,
        members_view(item.data@),
        opt_json(parsed),
        texts(old(cache)@),
    ).events);
    results
}

fn convert_closed(item: CodexItem, cache: &mut TextMap<String>) -> (r: Vec<ExecutionEvent>)
    ensures
        ({
            let c = closed_item(
                item.item_type@,
                item.id@,
                members_view(item.data@),
                texts(old(cache)@),
            );
            events_view(r@) == c.events && texts(final(cache)@) == c.cache
        }),
{
    let mut results: Vec<ExecutionEvent> = Vec::new();
    assert(events_view(results@) =~= Seq::empty());
    let kind = item_kind(item.item_type.as_str());
    match kind {
        ItemKind::Tool | ItemKind::ToolOutcome => {
            if let Some(name) = tool_name(&item.data) {
                // A null result is reported too: whoever counts pending tools waits for it.
                let result = match tool_result(&item.data) {
                    Some(v) => v,
                    None => Json::Null,
                };
                emit(
                    &mut results,
                    ExecutionEvent::ToolResult { id: item.id.clone(), name, result },
                );
            }
        },
        ItemKind::CommandExecution => {
            let args = command_execution_args(&item.data);
            emit_call_once(&mut results, cache, item.id.as_str(), "bash", args);
            let result = command_execution_result(&item.data);
            emit(
                &mut results,
                ExecutionEvent::ToolResult {
                    id: item.id.clone(),
                    name: "bash".to_string(),
                    result,
                },
            );
        },
        ItemKind::McpToolCall => {
            if let Some(name) = mcp_tool_name(&item.data) {
                let args = mcp_tool_args(&item.data);
                emit_call_once(&mut results, cache, item.id.as_str(), name.as_str(), args);
                if let Some(result) = mcp_tool_result(&item.data) {
                    emit(
                        &mut results,
                        ExecutionEvent::ToolResult { id: item.id.clone(), name, result },
                    );
                }
            }
        },
        _ => {
            emit_spoken(&mut results, cache, kind, &item);
        },
    }
    assert(events_view(results@) =~= closed_item(
        item.item_type@,
        item.id@,
        members_view(item.data@),
        texts(old(cache)@),
    ).events);
    results
}

fn convert_turn_completed(summary: Option<String>, usage: Option<CodexUsage>) -> (r: Vec<
    ExecutionEvent,
>)
    ensures
        events_view(r@) == turn_completed(opt_string(summary), usage),
{
    let mut results: Vec<ExecutionEvent> = Vec::new();
    assert(events_view(results@) =~= Seq::empty());
    if let Some(text) = summary {
        if !is_blank(text.as_str()) {
            emit(&mut results, ExecutionEvent::TurnSummary { content: text });
        }
    }
    if let Some(u) = usage {
        let (input, output) = u.normalized();
        emit_usage(&mut results, input, output);
    }
    assert(events_view(results@) =~= turn_completed(opt_string(summary), usage));
    results
}

fn one_error(message: String) -> (r: Vec<ExecutionEvent>)
    ensures
        events_view(r@) == seq![EventView::Error { message: message@ }],
{
    let mut results: Vec<ExecutionEvent> = Vec::new();
    assert(events_view(results@) =~= Seq::empty());
    emit(&mut results, ExecutionEvent::Error { message });
    assert(events_view(results@) =~= seq![EventView::Error { message: message@ }]);
    results
}

/// The text of encoded tool arguments that an event holds.
pub fn encoded_arguments(event: &CodexEvent) -> (r: Option<String>)
    ensures
        opt_string(r) == encoded_in(*event),
{
    match event {
        CodexEvent::ItemCreated { item } | CodexEvent::ItemUpdated { item } => {
            if let ItemKind::Tool = item_kind(item.item_type.as_str()) {
                arguments_text(&tool_args(&item.data))
            } else {
                None
            }
        },
        _ => None,
    }
}

/// Converts a Codex event, given what the encoded arguments in it were read as.
/// `cache` holds what was last seen of each item.
pub fn convert_codex_event_with(
    event: CodexEvent,
    parsed: Option<Json>,
    cache: &mut TextMap<String>,
) -> (r: Vec<ExecutionEvent>)
    ensures
        events_view(r@) == converted(event, opt_json(parsed), texts(old(cache)@)).events,
        texts(final(cache)@) == converted(event, opt_json(parsed), texts(old(cache)@)).cache,
{
    match event {
        CodexEvent::ThreadStarted { .. } | CodexEvent::TurnStarted | CodexEvent::Unknown => {
            let none: Vec<ExecutionEvent> = Vec::new();
            assert(events_view(none@) =~= Seq::empty());
            none
        },
        CodexEvent::TurnCompleted { summary, usage } => convert_turn_completed(summary, usage),
        CodexEvent::TurnFailed { error } => one_error(error.message),
        CodexEvent::Error { message } => one_error(message),
        CodexEvent::ItemCreated { item } | CodexEvent::ItemUpdated { item } => convert_opened(
            item,
            parsed,
            cache,
        ),
        CodexEvent::ItemCompleted { item } => convert_closed(item, cache),
    }
}

/// Converts a Codex event into backend-neutral events. `cache` holds what was last
/// seen of each item, so that an item that is updated without change adds nothing.
pub fn convert_codex_event(event: CodexEvent, cache: &mut TextMap<String>) -> (r: Vec<
    ExecutionEvent,
>)
    ensures
        ({
            let c = converted(event, parsed_opt(encoded_in(event)), texts(old(cache)@));
            events_view(r@) == c.events && texts(final(cache)@) == c.cache
        }),
{
    let parsed = match encoded_arguments(&event) {
        Some(text) => parse_json(text.as_str()),
        None => None,
    };
    convert_codex_event_with(event, parsed, cache)
}

// ---------------------------------------------------------------------------
// Laws
// ---------------------------------------------------------------------------

/// Nothing that is remembered of an item is ever forgotten.
pub proof fn law_memory_grows(
    event: CodexEvent,
    parsed: Option<JsonView>,
    cache: Map<Seq<char>, Seq<char>>,
)
    ensures
        cache.dom().subset_of(converted(event, parsed, cache).cache.dom()),
{
}

/// Once the call of a command was emitted, no later event of that command, in
/// whatever order they come, emits it again.
pub proof fn law_command_called_once(
    event: CodexEvent,
    item: CodexItem,
    parsed: Option<JsonView>,
    cache: Map<Seq<char>, Seq<char>>,
)
    requires
        kind_of(item.item_type@) == ItemKind::CommandExecution,
        event == (CodexEvent::ItemCreated { item }) || event == (CodexEvent::ItemUpdated { item })
            || event == (CodexEvent::ItemCompleted { item }),
    ensures
        ({
            let c = converted(event, parsed, cache);
            &&& call_emitted(c.cache, item.id@)
            &&& call_emitted(cache, item.id@) ==> forall|i: int|
                0 <= i < c.events.len() ==> !(#[trigger] c.events[i] is ToolCall)
            &&& !call_emitted(cache, item.id@) ==> c.events.len() > 0 && c.events[0] is ToolCall
        }),
{
}

/// What a row of events leads to, each with what the encoded arguments in it were read as.
pub open spec fn converted_all(
    events: Seq<(CodexEvent, Option<JsonView>)>,
    cache: Map<Seq<char>, Seq<char>>,
) -> Conversion
    decreases events.len(),
{
    if events.len() == 0 {
        Conversion { events: Seq::empty(), cache }
    } else {
        let first = converted(events[0].0, events[0].1, cache);
        let rest = converted_all(events.drop_first(), first.cache);
        Conversion { events: first.events + rest.events, cache: rest.cache }
    }
}

/// The item of an event.
pub open spec fn item_in(event: CodexEvent) -> Option<CodexItem> {
    match event {
        CodexEvent::ItemCreated { item } => Some(item),
        CodexEvent::ItemUpdated { item } => Some(item),
        CodexEvent::ItemCompleted { item } => Some(item),
        _ => None,
    }
}

/// Whether an event is one of the item `id`.
pub open spec fn concerns(event: CodexEvent, id: Seq<char>) -> bool {
    item_in(event) matches Some(item) && item.id@ == id
}

/// Whether an event, if it is one of the item `id`, shows it as a command.
pub open spec fn shows_command(event: CodexEvent, id: Seq<char>) -> bool {
    concerns(event, id) ==> kind_of(item_in(event)->0.item_type@) == ItemKind::CommandExecution
}

/// How many calls of the item `id` there are.
pub open spec fn calls_of(events: Seq<EventView>, id: Seq<char>) -> nat
    decreases events.len(),
{
    if events.len() == 0 {
        0
    } else {
        calls_of(events.drop_last(), id) + if events.last() is ToolCall
            && events.last()->ToolCall_id == id {
            1nat
        } else {
            0
        }
    }
}

proof fn lemma_calls_concat(a: Seq<EventView>, b: Seq<EventView>, id: Seq<char>)
    ensures
        calls_of(a + b, id) == calls_of(a, id) + calls_of(b, id),
    decreases b.len(),
{
    if b.len() == 0 {
        assert(a + b =~= a);
    } else {
        assert((a + b).drop_last() =~= a + b.drop_last());
        lemma_calls_concat(a, b.drop_last(), id);
    }
}

proof fn lemma_no_calls(events: Seq<EventView>, id: Seq<char>)
    requires
        forall|i: int|
            0 <= i < events.len() ==> !(#[trigger] events[i] is ToolCall && events[i]->ToolCall_id
                == id),
    ensures
        calls_of(events, id) == 0,
    decreases events.len(),
{
    if events.len() > 0 {
        lemma_no_calls(events.drop_last(), id);
        assert(!(events[events.len() - 1] is ToolCall && events[events.len() - 1]->ToolCall_id
            == id));
    }
}

proof fn lemma_calls_of_step(
    event: CodexEvent,
    parsed: Option<JsonView>,
    cache: Map<Seq<char>, Seq<char>>,
    id: Seq<char>,
)
    requires
        shows_command(event, id),
    ensures
        ({
            let c = converted(event, parsed, cache);
            &&& call_emitted(cache, id) ==> call_emitted(c.cache, id)
            &&& calls_of(c.events, id) == if concerns(event, id) && !call_emitted(cache, id) {
                1nat
            } else {
                0
            }
            &&& concerns(event, id) ==> call_emitted(c.cache, id)
        }),
{
    let c = converted(event, parsed, cache);
    law_memory_grows(event, parsed, cache);
    if concerns(event, id) {
        reveal_with_fuel(calls_of, 3);
        if c.events.len() == 2 {
            assert(c.events.drop_last().last() == c.events[0]);
        }
    } else {
        lemma_no_calls(c.events, id);
    }
}

/// However many events of a command there are, in whatever order and among whatever other
/// events, its call is emitted once: with the first of them, unless it was emitted before.
pub proof fn law_command_called_once_in_all(
    events: Seq<(CodexEvent, Option<JsonView>)>,
    cache: Map<Seq<char>, Seq<char>>,
    id: Seq<char>,
)
    requires
        forall|i: int| 0 <= i < events.len() ==> shows_command((#[trigger] events[i]).0, id),
    ensures
        calls_of(converted_all(events, cache).events, id) <= 1,
        call_emitted(cache, id) ==> calls_of(converted_all(events, cache).events, id) == 0,
        events.len() > 0 && concerns(events[0].0, id) && !call_emitted(cache, id) ==> calls_of(
            converted_all(events, cache).events,
            id,
        ) == 1,
    decreases events.len(),
{
    if events.len() > 0 {
        let first = converted(events[0].0, events[0].1, cache);
        let rest = events.drop_first();
        assert forall|i: int| 0 <= i < rest.len() implies shows_command(
            (#[trigger] rest[i]).0,
            id,
        ) by {
            assert(rest[i] == events[i + 1]);
        }
        lemma_calls_of_step(events[0].0, events[0].1, cache, id);
        law_command_called_once_in_all(rest, first.cache, id);
        lemma_calls_concat(first.events, converted_all(rest, first.cache).events, id);
    }
}

/// An item that comes again without change adds no text.
pub proof fn law_unchanged_item_is_silent(
    event: CodexEvent,
    again: CodexEvent,
    item: CodexItem,
    cache: Map<Seq<char>, Seq<char>>,
)
    requires
        kind_of(item.item_type@) == ItemKind::Message || kind_of(item.item_type@)
            == ItemKind::Reasoning,
        event == (CodexEvent::ItemCreated { item }) || event == (CodexEvent::ItemUpdated { item })
            || event == (CodexEvent::ItemCompleted { item }),
        again == (CodexEvent::ItemCreated { item }) || again == (CodexEvent::ItemUpdated { item })
            || again == (CodexEvent::ItemCompleted { item }),
    ensures
        ({
            let first = converted(event, None, cache);
            let second = converted(again, None, first.cache);
            second.events.len() == 0 && second.cache == first.cache
        }),
{
    let first = converted(event, None, cache);
    let second = converted(again, None, first.cache);
    assert(second.cache =~= first.cache);
}

/// A completed tool call whose name is known is always answered, be it with `null`.
pub proof fn law_completed_tool_is_answered(
    item: CodexItem,
    parsed: Option<JsonView>,
    cache: Map<Seq<char>, Seq<char>>,
)
    requires
        kind_of(item.item_type@) == ItemKind::Tool || kind_of(item.item_type@)
            == ItemKind::ToolOutcome,
        tool_name_of(members_view(item.data@)) is Some,
    ensures
        ({
            let events = converted(CodexEvent::ItemCompleted { item }, parsed, cache).events;
            events.len() == 1 && events[0] is ToolResult && events[0]->ToolResult_id == item.id@
        }),
{
}

// ---------------------------------------------------------------------------
// What each item leads to
// ---------------------------------------------------------------------------

/// What the types of items mean.
pub proof fn law_types_of_items()
    ensures
        kind_of("message"@) == ItemKind::Message,
        kind_of("agent_message"@) == ItemKind::Message,
        kind_of("assistant_message"@) == ItemKind::Message,
        kind_of("reasoning"@) == ItemKind::Reasoning,
        kind_of("thinking"@) == ItemKind::Reasoning,
        kind_of("command"@) == ItemKind::Tool,
        kind_of("tool"@) == ItemKind::Tool,
        kind_of("tool_call"@) == ItemKind::Tool,
        kind_of("function_call"@) == ItemKind::Tool,
        kind_of("tool_result"@) == ItemKind::ToolOutcome,
        kind_of("function_result"@) == ItemKind::ToolOutcome,
        kind_of("command_execution"@) == ItemKind::CommandExecution,
        kind_of("mcp_tool_call"@) == ItemKind::McpToolCall,
{
    reveal_strlit("message");
    reveal_strlit("agent_message");
    reveal_strlit("assistant_message");
    reveal_strlit("reasoning");
    reveal_strlit("thinking");
    reveal_strlit("command");
    reveal_strlit("tool");
    reveal_strlit("tool_call");
    reveal_strlit("function_call");
    reveal_strlit("tool_result");
    reveal_strlit("function_result");
    reveal_strlit("command_execution");
    reveal_strlit("mcp_tool_call");
    assert("message"@[0] == 'm' && "command"@[0] == 'c' && "agent_message"@[0] == 'a'
        && "function_call"@[0] == 'f' && "mcp_tool_call"@[0] == 'm' && "assistant_message"@[0]
        == 'a' && "command_execution"@[0] == 'c' && "reasoning"@[0] == 'r' && "tool_call"@[0]
        == 't');
    assert("message"@.len() == 7 && "agent_message"@.len() == 13 && "assistant_message"@.len() == 17 && "reasoning"@.len() == 9 && "thinking"@.len() == 8 && "command"@.len() == 7 && "tool"@.len() == 4 && "tool_call"@.len() == 9 && "function_call"@.len() == 13 && "tool_result"@.len() == 11 && "function_result"@.len() == 15 && "command_execution"@.len() == 17 && "mcp_tool_call"@.len() == 13);
}

/// Items of other types lead to nothing.
pub proof fn law_other_items_are_passed_over(
    event: CodexEvent,
    parsed: Option<JsonView>,
    cache: Map<Seq<char>, Seq<char>>,
)
    requires
        item_in(event) matches Some(item) && {
            let t = item.item_type@;
            t != "message"@ && t != "agent_message"@ && t != "assistant_message"@ && t
                != "reasoning"@ && t != "thinking"@ && t != "command"@ && t != "tool"@ && t
                != "tool_call"@ && t != "function_call"@ && t != "tool_result"@ && t
                != "function_result"@ && t != "command_execution"@ && t != "mcp_tool_call"@
        },
    ensures
        converted(event, parsed, cache).events.len() == 0,
        converted(event, parsed, cache).cache == cache,
{
}

/// A result reaches whoever asked for it, whatever the error and the status: as it is, or in
/// an object beside them. It stands alone only where there is neither; without a result, an
/// error or a status there is nothing to tell.
pub proof fn law_result_is_kept(
    result: JsonView,
    error: Option<JsonView>,
    status: Option<JsonView>,
)
    ensures
        ({
            let wrong = match error {
                None => false,
                Some(JsonView::Null) => false,
                Some(JsonView::Text(s)) => trimmed(s).len() > 0,
                Some(_) => true,
            };
            let stated = status matches Some(s) && s != JsonView::Null;
            match normalized_result(result, error, status) {
                None => result == JsonView::Null && !wrong && !stated,
                Some(r) => if wrong || stated {
                    &&& r is Object && r->Object_0.len() == 3
                    &&& r.get("result"@) == Some(result)
                    &&& r.get("error"@) == match error {
                        Some(e) => Some(e),
                        None => Some(JsonView::Null),
                    }
                    &&& r.get("status"@) == match status {
                        Some(s) => Some(s),
                        None => Some(JsonView::Null),
                    }
                } else {
                    r == result && result != JsonView::Null
                },
            }
        }),
{
    reveal_strlit("error");
    reveal_strlit("result");
    reveal_strlit("status");
    assert("error"@.len() == 5 && "result"@[0] == 'r' && "status"@[0] == 's');
    if let Some(JsonView::Object(m)) = normalized_result(result, error, status) {
        if is_error(error) || or_null(status) != JsonView::Null {
            law_first_member_is_found(m, 0);
            law_first_member_is_found(m, 1);
            law_first_member_is_found(m, 2);
        }
    }
}

/// The call of an MCP tool: it is named after its server and the tool, and called with its
/// arguments.
pub proof fn law_mcp_call_is_passed_on(
    item: CodexItem,
    parsed: Option<JsonView>,
    cache: Map<Seq<char>, Seq<char>>,
    server: Seq<char>,
    tool: Seq<char>,
    args: JsonView,
)
    requires
        item.item_type@ == "mcp_tool_call"@,
        lookup(members_view(item.data@), "server"@) == Some(JsonView::Text(server)),
        lookup(members_view(item.data@), "tool"@) == Some(JsonView::Text(tool)),
        lookup(members_view(item.data@), "arguments"@) == Some(args) || (lookup(
            members_view(item.data@),
            "arguments"@,
        ) is None && lookup(members_view(item.data@), "args"@) == Some(args)),
    ensures
        ({
            let call = EventView::ToolCall {
                id: item.id@,
                name: "mcp__"@ + server + "__"@ + tool,
                args,
            };
            let known = cache.dom().contains("tool_call:"@ + item.id@);
            let closed = converted(CodexEvent::ItemCompleted { item }, parsed, cache).events;
            &&& converted(CodexEvent::ItemCreated { item }, parsed, cache).events == seq![call]
            &&& converted(CodexEvent::ItemUpdated { item }, parsed, cache).events == seq![call]
            &&& !known ==> closed.len() > 0 && closed[0] == call
            &&& known ==> forall|i: int|
                0 <= i < closed.len() ==> !(#[trigger] closed[i] is ToolCall)
        }),
{
    law_types_of_items();
    let d = members_view(item.data@);
    let keys = seq!["arguments"@, "args"@];
    law_first_key_counts(
        d,
        keys,
        if lookup(d, "arguments"@) is Some {
            0
        } else {
            1
        },
    );
}

/// What an MCP tool answered reaches whoever called it, also beside an error or a status.
pub proof fn law_mcp_answer_is_passed_on(
    item: CodexItem,
    parsed: Option<JsonView>,
    cache: Map<Seq<char>, Seq<char>>,
    server: Seq<char>,
    tool: Seq<char>,
    result: JsonView,
)
    requires
        item.item_type@ == "mcp_tool_call"@,
        lookup(members_view(item.data@), "server"@) == Some(JsonView::Text(server)),
        lookup(members_view(item.data@), "tool"@) == Some(JsonView::Text(tool)),
        lookup(members_view(item.data@), "result"@) == Some(result),
        result != JsonView::Null,
    ensures
        ({
            let e = converted(CodexEvent::ItemCompleted { item }, parsed, cache).events;
            &&& e.len() > 0 && e.last() is ToolResult
            &&& e.last()->ToolResult_id == item.id@
            &&& e.last()->ToolResult_name == "mcp__"@ + server + "__"@ + tool
            &&& e.last()->ToolResult_result == result || e.last()->ToolResult_result.get("result"@)
                == Some(result)
        }),
{
    law_types_of_items();
    let d = members_view(item.data@);
    law_result_is_kept(result, lookup(d, "error"@), lookup(d, "status"@));
}

/// A command is reported as a call of `bash` with the command, and its output, exit code and
/// status as the result of that call.
pub proof fn law_command_is_reported(
    item: CodexItem,
    parsed: Option<JsonView>,
    cache: Map<Seq<char>, Seq<char>>,
    command: JsonView,
    output: JsonView,
    exit_code: JsonView,
    status: JsonView,
)
    requires
        item.item_type@ == "command_execution"@,
        lookup(members_view(item.data@), "command"@) == Some(command),
        lookup(members_view(item.data@), "exit_code"@) == Some(exit_code),
        lookup(members_view(item.data@), "status"@) == Some(status),
        ({
            let d = members_view(item.data@);
            match (lookup(d, "aggregated_output"@), lookup(d, "output"@), lookup(d, "result"@)) {
                (Some(o), _, _) => o == output,
                (None, Some(o), _) => o == output,
                (None, None, Some(o)) => o == output,
                _ => false,
            }
        }),
    ensures
        ({
            let known = cache.dom().contains("tool_call:"@ + item.id@);
            let opened = converted(CodexEvent::ItemCreated { item }, parsed, cache).events;
            let closed = converted(CodexEvent::ItemCompleted { item }, parsed, cache).events;
            let answer = closed.last();
            &&& known ==> opened.len() == 0 && closed.len() == 1
            &&& !known ==> opened.len() == 1 && closed.len() == 2 && closed[0] == opened[0]
                && opened[0] is ToolCall && opened[0]->ToolCall_id == item.id@
                && opened[0]->ToolCall_name == "bash"@ && opened[0]->ToolCall_args.get("command"@)
                == Some(command)
            &&& answer is ToolResult && answer->ToolResult_id == item.id@
                && answer->ToolResult_name == "bash"@
            &&& answer->ToolResult_result.get("output"@) == Some(output)
            &&& answer->ToolResult_result.get("exit_code"@) == Some(exit_code)
            &&& answer->ToolResult_result.get("status"@) == Some(status)
            &&& converted(CodexEvent::ItemUpdated { item }, parsed, cache).events == opened
        }),
{
    law_types_of_items();
    reveal_strlit("exit_code");
    reveal_strlit("output");
    reveal_strlit("status");
    assert("exit_code"@.len() == 9 && "output"@[0] == 'o' && "status"@[0] == 's');
    let d = members_view(item.data@);
    let keys = seq!["aggregated_output"@, "output"@, "result"@];
    law_first_key_counts(
        d,
        keys,
        if lookup(d, "aggregated_output"@) is Some {
            0
        } else if lookup(d, "output"@) is Some {
            1
        } else {
            2
        },
    );
    let m = command_result(d)->Object_0;
    law_first_member_is_found(m, 0);
    law_first_member_is_found(m, 1);
    law_first_member_is_found(m, 2);
    law_first_member_is_found(command_args(d)->Object_0, 0);
}

/// The call of a tool is passed on with its name and its arguments, under the names that an
/// item may give them.
pub proof fn law_tool_call_is_passed_on(
    item: CodexItem,
    parsed: Option<JsonView>,
    cache: Map<Seq<char>, Seq<char>>,
    name: Seq<char>,
    args: JsonView,
)
    requires
        item.item_type@ == "command"@ || item.item_type@ == "tool"@ || item.item_type@
            == "tool_call"@ || item.item_type@ == "function_call"@,
        lookup(members_view(item.data@), "name"@) == Some(JsonView::Text(name)),
        ({
            let d = members_view(item.data@);
            ||| lookup(d, "args"@) == Some(args)
            ||| lookup(d, "args"@) is None && match lookup(d, "arguments"@) {
                Some(JsonView::Text(s)) => trimmed(s).len() > 0 && parsed == Some(args) || !(
                trimmed(s).len() > 0 && parsed is Some) && args == JsonView::Text(s),
                Some(v) => v == args,
                None => lookup(d, "input"@) == Some(args),
            }
        }),
    ensures
        ({
            let call = EventView::ToolCall { id: item.id@, name, args };
            &&& converted(CodexEvent::ItemCreated { item }, parsed, cache).events == seq![call]
            &&& converted(CodexEvent::ItemUpdated { item }, parsed, cache).events == seq![call]
        }),
{
    law_types_of_items();
    let d = members_view(item.data@);
    law_first_text_counts(d, seq!["name"@, "tool"@, "tool_name"@, "command"@], 0);
    if lookup(d, "input"@) is Some {
        law_first_key_counts(d, seq!["input"@, "params"@, "payload"@], 0);
    }
}

/// What encoded arguments are read from: the text of `arguments`, where there are no `args`.
pub proof fn law_encoded_arguments_are_found(item: CodexItem, text: Seq<char>)
    requires
        item.item_type@ == "command"@ || item.item_type@ == "tool"@ || item.item_type@
            == "tool_call"@ || item.item_type@ == "function_call"@,
        lookup(members_view(item.data@), "args"@) is None,
        lookup(members_view(item.data@), "arguments"@) == Some(JsonView::Text(text)),
        trimmed(text).len() > 0,
    ensures
        encoded_in(CodexEvent::ItemCreated { item }) == Some(text),
        encoded_in(CodexEvent::ItemUpdated { item }) == Some(text),
{
    law_types_of_items();
}

/// What a tool answered is passed on, under the first of the names that an item may give it,
/// also beside an error or a status.
pub proof fn law_tool_answer_is_passed_on(
    item: CodexItem,
    parsed: Option<JsonView>,
    cache: Map<Seq<char>, Seq<char>>,
    name: Seq<char>,
    result: JsonView,
)
    requires
        item.item_type@ == "command"@ || item.item_type@ == "tool"@ || item.item_type@
            == "tool_call"@ || item.item_type@ == "function_call"@ || item.item_type@
            == "tool_result"@ || item.item_type@ == "function_result"@,
        lookup(members_view(item.data@), "name"@) == Some(JsonView::Text(name)),
        ({
            let d = members_view(item.data@);
            match (lookup(d, "result"@), lookup(d, "output"@), lookup(d, "response"@)) {
                (Some(r), _, _) => r == result,
                (None, Some(r), _) => r == result,
                (None, None, Some(r)) => r == result,
                _ => match (lookup(d, "content"@), lookup(d, "data"@)) {
                    (Some(r), _) => r == result,
                    (None, Some(r)) => r == result,
                    _ => false,
                },
            }
        }),
    ensures
        ({
            let e = converted(CodexEvent::ItemCompleted { item }, parsed, cache).events;
            &&& e.len() == 1 && e[0] is ToolResult
            &&& e[0]->ToolResult_id == item.id@
            &&& e[0]->ToolResult_name == name
            &&& e[0]->ToolResult_result == result || e[0]->ToolResult_result.get("result"@) == Some(
                result,
            )
        }),
{
    law_types_of_items();
    let d = members_view(item.data@);
    law_first_text_counts(d, seq!["name"@, "tool"@, "tool_name"@, "command"@], 0);
    law_first_key_counts(
        d,
        seq!["result"@, "output"@, "response"@, "content"@, "data"@],
        if lookup(d, "result"@) is Some {
            0
        } else if lookup(d, "output"@) is Some {
            1
        } else if lookup(d, "response"@) is Some {
            2
        } else if lookup(d, "content"@) is Some {
            3
        } else {
            4
        },
    );
    law_result_is_kept(result, lookup(d, "error"@), lookup(d, "status"@));
}

/// The name of a tool may stand under several names, and in a nested call.
pub proof fn law_tool_name_is_found(data: Seq<(Seq<char>, JsonView)>, name: Seq<char>)
    requires
        ({
            let t = |k: Seq<char>| opt_text(lookup(data, k));
            ||| t("name"@) == Some(name)
            ||| t("name"@) is None && t("tool"@) == Some(name)
            ||| t("name"@) is None && t("tool"@) is None && t("tool_name"@) == Some(name)
            ||| t("name"@) is None && t("tool"@) is None && t("tool_name"@) is None && t("command"@)
                == Some(name)
        }),
    ensures
        tool_name_of(data) == Some(name),
{
    let t = |k: Seq<char>| opt_text(lookup(data, k));
    law_first_text_counts(
        data,
        seq!["name"@, "tool"@, "tool_name"@, "command"@],
        if t("name"@) is Some {
            0
        } else if t("tool"@) is Some {
            1
        } else if t("tool_name"@) is Some {
            2
        } else {
            3
        },
    );
}

/// The text of an item is passed on whole: what an agent says as text, unless it said the same
/// before, and what it thinks as a thought.
pub proof fn law_text_is_passed_on(
    item: CodexItem,
    event: CodexEvent,
    parsed: Option<JsonView>,
    cache: Map<Seq<char>, Seq<char>>,
    text: Seq<char>,
)
    requires
        event == (CodexEvent::ItemCreated { item }) || event == (CodexEvent::ItemUpdated { item })
            || event == (CodexEvent::ItemCompleted { item }),
        text.len() > 0,
        ({
            let d = members_view(item.data@);
            let t = |k: Seq<char>| lookup(d, k) == Some(JsonView::Text(text));
            ||| t("text"@)
            ||| lookup(d, "text"@) is None && t("content"@)
            ||| lookup(d, "text"@) is None && lookup(d, "content"@) is None && t("output_text"@)
        }),
    ensures
        ({
            let c = converted(event, parsed, cache);
            let same = cache.dom().contains(item.id@) && cache[item.id@] == text;
            let said = item.item_type@ == "message"@ || item.item_type@ == "agent_message"@
                || item.item_type@ == "assistant_message"@;
            let thought = item.item_type@ == "reasoning"@ || item.item_type@ == "thinking"@;
            &&& said && !same ==> c.events == seq![EventView::TextDelta { content: text }]
            &&& thought && !same ==> c.events == seq![EventView::Thinking { content: text }]
            &&& (said || thought) && same ==> c.events.len() == 0
            &&& said || thought ==> c.cache.dom().contains(item.id@) && c.cache[item.id@] == text
        }),
{
    law_types_of_items();
}

/// The text of a list of blocks is that of its blocks, one after the other, and all of it.
/// Blocks of reasoning are no part of what is said, but of what is thought.
pub proof fn law_blocks_are_read_in_order(
    before: Seq<JsonView>,
    block: JsonView,
    text: Seq<char>,
    with_reasoning: bool,
)
    requires
        block.get("text"@) == Some(JsonView::Text(text)),
    ensures
        ({
            let kind = block.get("type"@);
            let hidden = !with_reasoning && (kind == Some(JsonView::Text("reasoning"@)) || kind
                == Some(JsonView::Text("thinking"@)));
            &&& !hidden && text.len() > 0 ==> blocks_text(before.push(block), with_reasoning)
                == blocks_text(before, with_reasoning) + text
            &&& hidden ==> blocks_text(before.push(block), with_reasoning) == blocks_text(
                before,
                with_reasoning,
            )
        }),
        blocks_text(Seq::<JsonView>::empty(), with_reasoning).len() == 0,
        ({
            let data = seq![("content"@, JsonView::Array(before))];
            let all = blocks_text(before, with_reasoning);
            all.len() > 0 ==> item_text(data, with_reasoning) == Some(all)
        }),
{
    assert(before.push(block).drop_last() =~= before);
    reveal_strlit("");
    reveal_strlit("reasoning");
    reveal_strlit("thinking");
    reveal_strlit("text");
    reveal_strlit("content");
    reveal_strlit("output_text");
    assert("text"@.len() == 4 && "content"@.len() == 7 && "output_text"@.len() == 11);
    assert(""@.len() == 0 && "reasoning"@.len() == 9 && "thinking"@.len() == 8);
    let data = seq![("content"@, JsonView::Array(before))];
    law_first_member_is_found(data, 0);
    law_found_member_is_there(data, "text"@);
    law_found_member_is_there(data, "output_text"@);
    assert(data[0].0 == "content"@);
    if let Some(v) = lookup(data, "text"@) {
        let i = choose|i: int| 0 <= i < data.len() && #[trigger] data[i] == ("text"@, v);
        assert(false);
    }
    if let Some(v) = lookup(data, "output_text"@) {
        let i = choose|i: int| 0 <= i < data.len() && #[trigger] data[i] == ("output_text"@, v);
        assert(false);
    }
    assert(blocks_text(before, with_reasoning) + Seq::<char>::empty() =~= blocks_text(
        before,
        with_reasoning,
    ));
}

/// The end of a turn: its summary, unless that is blank, and how many tokens it took, under
/// either of their names; or the error that it failed with.
pub proof fn law_end_of_turn_is_reported(
    summary: Option<String>,
    usage: Option<CodexUsage>,
    error: CodexError,
    message: String,
    parsed: Option<JsonView>,
    cache: Map<Seq<char>, Seq<char>>,
)
    ensures
        ({
            let e = converted(CodexEvent::TurnCompleted { summary, usage }, parsed, cache).events;
            let told = summary matches Some(s) && trimmed(s@).len() > 0;
            let input = match usage {
                Some(u) => if u.input_tokens is Some {
                    u.input_tokens->0 as int
                } else if u.prompt_tokens is Some {
                    u.prompt_tokens->0 as int
                } else {
                    0
                },
                None => 0,
            };
            let output = match usage {
                Some(u) => if u.output_tokens is Some {
                    u.output_tokens->0 as int
                } else if u.completion_tokens is Some {
                    u.completion_tokens->0 as int
                } else {
                    0
                },
                None => 0,
            };
            let counted = input > 0 || output > 0;
            &&& told ==> e.len() > 0 && e[0] == (EventView::TurnSummary { content: summary->0@ })
            &&& counted ==> e.len() > 0 && e.last() == (EventView::Usage {
                input_tokens: input,
                output_tokens: output,
            })
            &&& e.len() == (if told {
                1int
            } else {
                0
            }) + (if counted {
                1int
            } else {
                0
            })
        }),
        converted(CodexEvent::TurnFailed { error }, parsed, cache).events == seq![
            EventView::Error { message: error.message@ },
        ],
        converted(CodexEvent::Error { message }, parsed, cache).events == seq![
            EventView::Error { message: message@ },
        ],
        converted(CodexEvent::TurnStarted, parsed, cache).events.len() == 0,
        converted(CodexEvent::Unknown, parsed, cache).events.len() == 0,
{
}

proof fn lemma_one_member(k: Seq<char>, v: JsonView, key: Seq<char>)
    ensures
        lookup(seq![(k, v)], key) == if k == key {
            Some(v)
        } else {
            None
        },
{
    let m = seq![(k, v)];
    assert(m.drop_first().len() == 0);
    assert(lookup(m.drop_first(), key) is None);
}

proof fn lemma_first_of_nested<A>(
    k: Seq<char>,
    v: JsonView,
    f: spec_fn(JsonView) -> Option<A>,
    keys: Seq<Seq<char>>,
)
    requires
        keys.contains(k),
    ensures
        first_some(seq![(k, v)], keys, f) == f(v),
    decreases keys.len(),
{
    lemma_one_member(k, v, keys[0]);
    let rest = keys.drop_first();
    if keys[0] != k {
        let i = choose|i: int| 0 <= i < keys.len() && keys[i] == k;
        assert(rest[i - 1] == k);
        lemma_first_of_nested(k, v, f, rest);
    } else if f(v) is None {
        lemma_nothing_nested(k, v, f, rest);
    }
}

proof fn lemma_nothing_nested<A>(
    k: Seq<char>,
    v: JsonView,
    f: spec_fn(JsonView) -> Option<A>,
    keys: Seq<Seq<char>>,
)
    requires
        f(v) is None,
    ensures
        first_some(seq![(k, v)], keys, f) is None,
    decreases keys.len(),
{
    if keys.len() > 0 {
        lemma_one_member(k, v, keys[0]);
        lemma_nothing_nested(k, v, f, keys.drop_first());
    }
}

/// A call that is nested in an item under one of the usual names is found there: its name, its
/// arguments and its result.
pub proof fn law_nested_call_is_found(
    k: Seq<char>,
    m: Seq<(Seq<char>, JsonView)>,
    name: Seq<char>,
    args: JsonView,
    result: JsonView,
)
    requires
        k == "tool"@ || k == "function"@ || k == "call"@ || k == "tool_call"@ || k
            == "function_call"@ || k == "toolCall"@,
    ensures
        ({
            let data = seq![(k, JsonView::Object(m))];
            &&& lookup(m, "name"@) == Some(JsonView::Text(name)) ==> tool_name_of(data) == Some(name)
            &&& lookup(m, "args"@) == Some(args) ==> tool_args_of(data) == Some(
                ToolArgsView::Plain(args),
            )
            &&& lookup(m, "args"@) is None && lookup(m, "arguments"@) == Some(args)
                ==> tool_args_of(data) == Some(ToolArgsView::Encoded(args))
            &&& lookup(m, "result"@) == Some(result) && result != JsonView::Null ==> tool_result_of(
                data,
            ) == Some(result)
        }),
{
    let v = JsonView::Object(m);
    let data = seq![(k, v)];
    reveal_strlit("tool");
    reveal_strlit("function");
    reveal_strlit("call");
    reveal_strlit("tool_call");
    reveal_strlit("function_call");
    reveal_strlit("toolCall");
    reveal_strlit("args");
    reveal_strlit("arguments");
    reveal_strlit("input");
    reveal_strlit("params");
    reveal_strlit("payload");
    reveal_strlit("result");
    reveal_strlit("output");
    reveal_strlit("response");
    reveal_strlit("content");
    reveal_strlit("data");
    reveal_strlit("error");
    reveal_strlit("status");
    reveal_strlit("name");
    assert("tool"@[0] == 't' && "function"@[0] == 'f' && "call"@[0] == 'c' && "tool_call"@[0] == 't'
        && "function_call"@[0] == 'f' && "toolCall"@[0] == 't');
    assert("args"@[0] == 'a' && "arguments"@[0] == 'a' && "input"@[0] == 'i' && "params"@[0] == 'p'
        && "payload"@[0] == 'p' && "result"@[0] == 'r' && "output"@[0] == 'o' && "response"@[0]
        == 'r' && "data"@[0] == 'd' && "error"@[0] == 'e' && "status"@[0] == 's');
    assert("content"@.len() == 7 && "call"@.len() == 4);
    let nesting = nesting_keys();
    assert(nesting[0] == "tool"@ && nesting[1] == "function"@ && nesting[2] == "call"@ && nesting[3]
        == "tool_call"@ && nesting[4] == "function_call"@ && nesting[5] == "toolCall"@);
    assert(nesting.contains(k));
    lemma_nothing_nested(k, v, |v: JsonView| v.as_text(), seq![
        "name"@,
        "tool"@,
        "tool_name"@,
        "command"@,
    ]);
    lemma_first_of_nested(k, v, |v: JsonView| nested_name(v), nesting);
    lemma_first_of_nested(k, v, |v: JsonView| nested_args(v), nesting);
    lemma_first_of_nested(k, v, |v: JsonView| nested_result(v), nesting);
    lemma_one_member(k, v, "args"@);
    lemma_one_member(k, v, "arguments"@);
    lemma_one_member(k, v, "input"@);
    lemma_one_member(k, v, "params"@);
    lemma_one_member(k, v, "payload"@);
    lemma_one_member(k, v, "result"@);
    lemma_one_member(k, v, "output"@);
    lemma_one_member(k, v, "response"@);
    lemma_one_member(k, v, "content"@);
    lemma_one_member(k, v, "data"@);
    lemma_one_member(k, v, "error"@);
    lemma_one_member(k, v, "status"@);
    law_first_key_counts(data, seq!["input"@, "params"@, "payload"@], 3);
    law_first_key_counts(data, result_keys(), 5);
    if lookup(m, "name"@) == Some(JsonView::Text(name)) {
        law_first_text_counts(m, seq!["name"@, "tool_name"@, "command"@], 0);
    }
    if lookup(m, "result"@) == Some(result) {
        law_first_key_counts(m, result_keys(), 0);
    }
}

// ---------------------------------------------------------------------------
// Backend
// ---------------------------------------------------------------------------

/// The Codex backend. `C` is the configuration of the Codex CLI, and `W` whatever runs
/// commands in a workspace.
pub struct CodexBackend<C, W> {
    id: String,
    name: String,
    config: C,
    workspace_exec: Option<W>,
}

impl<C, W> CodexBackend<C, W> {
    pub closed spec fn id_text(&self) -> Seq<char> {
        self.id@
    }

    pub closed spec fn name_text(&self) -> Seq<char> {
        self.name@
    }

    pub closed spec fn config(&self) -> C {
        self.config
    }

    pub closed spec fn workspace(&self) -> Option<W> {
        self.workspace_exec
    }

    /// Whether the backend goes by the names that the registry knows it by.
    pub open spec fn named(&self) -> bool {
        self.id_text() == "codex"@ && self.name_text() == "Codex"@
    }

    fn make(config: C, workspace_exec: Option<W>) -> (r: Self)
        ensures
            r.named(),
            r.config() == config,
            r.workspace() == workspace_exec,
    {
        CodexBackend { id: "codex".to_string(), name: "Codex".to_string(), config, workspace_exec }
    }

    /// A backend with the default configuration.
    pub fn new() -> (r: Self) where C: Default
        ensures
            r.named(),
            is_default(r.config()),
            r.workspace() is None,
    {
        Self::make(C::default(), None)
    }

    pub fn with_config(config: C) -> (r: Self)
        ensures
            r.named(),
            r.config() == config,
            r.workspace() is None,
    {
        Self::make(config, None)
    }

    pub fn with_config_and_workspace(config: C, workspace_exec: W) -> (r: Self)
        ensures
            r.named(),
            r.config() == config,
            r.workspace() == Some(workspace_exec),
    {
        Self::make(config, Some(workspace_exec))
    }

    /// Replaces the configuration.
    pub fn update_config(&mut self, config: C)
        ensures
            final(self).config() == config,
            final(self).id_text() == old(self).id_text(),
            final(self).name_text() == old(self).name_text(),
            final(self).workspace() == old(self).workspace(),
    {
        self.config = config;
    }

    pub fn get_config(&self) -> (r: &C)
        ensures
            *r == self.config(),
    {
        &self.config
    }

    pub fn workspace_exec(&self) -> (r: Option<&W>)
        ensures
            match r {
                Some(w) => self.workspace() == Some(*w),
                None => self.workspace() is None,
            },
    {
        self.workspace_exec.as_ref()
    }

    pub fn id(&self) -> (r: &str)
        ensures
            r@ == self.id_text(),
    {
        self.id.as_str()
    }

    pub fn name(&self) -> (r: &str)
        ensures
            r@ == self.name_text(),
    {
        self.name.as_str()
    }

    /// The agents of the backend: a single one, for every purpose.
    pub fn list_agents(&self) -> (r: Vec<AgentInfo>)
        ensures
            r@.len() == 1,
            r@[0].id@ == "default"@,
            r@[0].name@ == "Codex Agent"@,
    {
        let mut agents: Vec<AgentInfo> = Vec::new();
        agents.push(AgentInfo { id: "default".to_string(), name: "Codex Agent".to_string() });
        agents
    }

    /// A session under the fresh identifier `id`.
    pub fn create_session(&self, id: String, config: SessionConfig) -> (r: Session)
        ensures
            r.id == id,
            r.directory == config.directory,
            r.model == config.model,
            r.agent == config.agent,
    {
        Session { id, directory: config.directory, model: config.model, agent: config.agent }
    }
}

impl<C: Default, W> Default for CodexBackend<C, W> {
    fn default() -> (r: Self)
        ensures
            r.named(),
            is_default(r.config()),
            r.workspace() is None,
    {
        Self::new()
    }
}

/// The entry of the Codex backend in the registry.
pub fn registry_entry<C: Default, W>() -> (r: CodexBackend<C, W>)
    ensures
        r.named(),
        is_default(r.config()),
        r.workspace() is None,
{
    CodexBackend::new()
}

/// A block without a text of its own is read under its other names.
pub proof fn law_other_names_of_a_text(
    before: Seq<JsonView>,
    block: JsonView,
    text: Seq<char>,
    with_reasoning: bool,
)
    requires
        block.get("text"@) is None,
        block.get("type"@) is None,
        text.len() > 0,
    ensures
        block.get("content"@) == Some(JsonView::Text(text)) ==> blocks_text(
            before.push(block),
            with_reasoning,
        ) == blocks_text(before, with_reasoning) + text,
        block.get("content"@) is None && block.get("output_text"@) == Some(JsonView::Text(text))
            ==> blocks_text(before.push(block), with_reasoning) == blocks_text(
            before,
            with_reasoning,
        ) + text,
        block.get("content"@) is None && block.get("output_text"@) is None ==> blocks_text(
            before.push(block),
            with_reasoning,
        ) == blocks_text(before, with_reasoning),
{
    assert(before.push(block).drop_last() =~= before);
    reveal_strlit("");
    reveal_strlit("reasoning");
    reveal_strlit("thinking");
    assert(""@.len() == 0 && "reasoning"@.len() == 9 && "thinking"@.len() == 8);
    assert(blocks_text(before, with_reasoning) + Seq::<char>::empty() =~= blocks_text(
        before,
        with_reasoning,
    ));
}

/// What is said in blocks leaves out the reasoning among them; what is thought holds it.
pub proof fn law_blocks_are_passed_on(
    item: CodexItem,
    event: CodexEvent,
    parsed: Option<JsonView>,
    cache: Map<Seq<char>, Seq<char>>,
    blocks: Seq<JsonView>,
)
    requires
        event == (CodexEvent::ItemCreated { item }) || event == (CodexEvent::ItemUpdated { item })
            || event == (CodexEvent::ItemCompleted { item }),
        lookup(members_view(item.data@), "text"@) is None,
        lookup(members_view(item.data@), "output_text"@) is None,
        lookup(members_view(item.data@), "content"@) == Some(JsonView::Array(blocks)),
        !cache.dom().contains(item.id@),
    ensures
        ({
            let e = converted(event, parsed, cache).events;
            let said = item.item_type@ == "message"@ || item.item_type@ == "agent_message"@
                || item.item_type@ == "assistant_message"@;
            let thought = item.item_type@ == "reasoning"@ || item.item_type@ == "thinking"@;
            &&& said && blocks_text(blocks, false).len() > 0 ==> e == seq![
                EventView::TextDelta { content: blocks_text(blocks, false) },
            ]
            &&& thought && blocks_text(blocks, true).len() > 0 ==> e == seq![
                EventView::Thinking { content: blocks_text(blocks, true) },
            ]
            &&& said && blocks_text(blocks, false).len() == 0 ==> e.len() == 0
            &&& thought && blocks_text(blocks, true).len() == 0 ==> e.len() == 0
        }),
{
    law_types_of_items();
}

/// The names of the backend.
pub proof fn law_backend_goes_by_its_names<C, W>(b: CodexBackend<C, W>)
    ensures
        b.named() <==> b.id_text() == "codex"@ && b.name_text() == "Codex"@,
{
}

} // verus!
