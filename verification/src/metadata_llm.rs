//! Titles and status lines of missions, written by a small language model.
use vstd::prelude::*;

use vstd::utf8::encode_utf8;

use crate::json::{
    group_json_view, items_view, law_first_member_is_found, members_view, object2, opt_get, opt_text, or_text, Json,
    JsonNumber, JsonView, NumberView,
};
use crate::text::{
    blank, byte_len, cat2, cat3, clone_opt, has_prefix, is_blank, is_whitespace,
    law_found_parts_are_there, law_parts_of_a_text, law_split_parts_at_separators,
    law_trim_keeps_the_middle, lemma_chars_within, lemma_split_whole, opt_string, prefix_within,
    split_at_set, split_set, strip_prefix, trim, trim_back, trim_both, trim_set, trim_set_back, trimmed,
    truncate_bytes, without_prefix, CharSet,
};

verus! {

/// Where the model is reached.
#[derive(Debug)]
pub struct MetadataLlmConfig {
    /// The base URL of an API in the style of OpenAI's.
    pub base_url: String,
    pub api_key: String,
    pub model: String,
}

// ---------------------------------------------------------------------------
// Reply
// ---------------------------------------------------------------------------

/// The longest prefix of `s` of at most `max_bytes` bytes.
pub fn truncate_to<'a>(s: &'a str, max_bytes: usize) -> (r: &'a str)
    ensures
        r@ == prefix_within(s@, max_bytes as int),
{
    truncate_bytes(s, max_bytes)
}

/// The prefix that is kept is at most as long as it may be, and with one more character it
/// would be longer.
pub proof fn law_truncation_is_tight(s: Seq<char>, max: int)
    requires
        0 <= max,
    ensures
        has_prefix(s, prefix_within(s, max)),
        encode_utf8(prefix_within(s, max)).len() <= max,
        prefix_within(s, max).len() < s.len() ==> encode_utf8(
            s.take(prefix_within(s, max).len() as int + 1),
        ).len() > max,
{
    lemma_chars_within(s, max);
}

/// The value that a line gives under a label, if it gives one of 1 to `max` bytes.
pub open spec fn labelled(line: Seq<char>, label: Seq<char>, max: int) -> Option<Seq<char>> {
    match without_prefix(trimmed(line), label) {
        Some(rest) => {
            let t = trimmed(trim_both(trimmed(rest), CharSet::One('"')));
            if 0 < t.len() && encode_utf8(t).len() <= max {
                Some(t)
            } else {
                None
            }
        },
        None => None,
    }
}

/// The value that the last line to give one gives under a label.
pub open spec fn last_labelled(lines: Seq<Seq<char>>, label: Seq<char>, max: int) -> Option<
    Seq<char>,
>
    decreases lines.len(),
{
    if lines.len() == 0 {
        None
    } else {
        match labelled(lines.last(), label, max) {
            Some(t) => Some(t),
            None => last_labelled(lines.drop_last(), label, max),
        }
    }
}

fn labelled_value(line: &str, label: &str, max: usize) -> (r: Option<String>)
    ensures
        opt_string(r) == labelled(line@, label@, max as int),
{
    match strip_prefix(trim(line), label) {
        Some(rest) => {
            let t = trim(trim_set(trim(rest), CharSet::One('"')));
            if !t.is_empty() && byte_len(t) <= max {
                Some(t.to_string())
            } else {
                None
            }
        },
        None => None,
    }
}

/// The lines of a text.
pub open spec fn lines_of(text: Seq<char>) -> Seq<Seq<char>> {
    split_at_set(text, CharSet::One('\n'))
}

/// The title in a reply.
pub open spec fn title_in(text: Seq<char>) -> Option<Seq<char>> {
    last_labelled(lines_of(text), "TITLE:"@, 100)
}

/// The status line in a reply.
pub open spec fn status_in(text: Seq<char>) -> Option<Seq<char>> {
    last_labelled(lines_of(text), "STATUS:"@, 200)
}

/// Reads a title and a status line out of a reply.
pub fn parse_title_status(text: &str) -> (r: (Option<String>, Option<String>))
    ensures
        opt_string(r.0) == title_in(text@),
        opt_string(r.1) == status_in(text@),
{
    let lines = split_set(text, CharSet::One('\n'));
    let ghost all = lines.deep_view();
    let mut title: Option<String> = None;
    let mut status: Option<String> = None;
    let mut i: usize = 0;
    assert(all.take(0).len() == 0);
    while i < lines.len()
        invariant
            i <= lines@.len(),
            all == lines.deep_view(),
            opt_string(title) == last_labelled(all.take(i as int), "TITLE:"@, 100),
            opt_string(status) == last_labelled(all.take(i as int), "STATUS:"@, 200),
        decreases lines@.len() - i,
    {
        let ghost seen = all.take(i + 1);
        assert(seen.drop_last() =~= all.take(i as int));
        assert(seen.last() == lines@[i as int]@);
        let line = lines[i].as_str();
        if let Some(t) = labelled_value(line, "TITLE:", 100) {
            title = Some(t);
        }
        if let Some(s) = labelled_value(line, "STATUS:", 200) {
            status = Some(s);
        }
        i += 1;
    }
    assert(all.take(all.len() as int) =~= all);
    (title, status)
}

/// A value that was read off is never too long, and never blank.
pub proof fn law_values_are_short(lines: Seq<Seq<char>>, label: Seq<char>, max: int)
    ensures
        match last_labelled(lines, label, max) {
            Some(t) => 0 < t.len() && encode_utf8(t).len() <= max,
            None => true,
        },
    decreases lines.len(),
{
    if lines.len() > 0 {
        law_values_are_short(lines.drop_last(), label, max);
    }
}

/// The text of a reply of the model.
pub open spec fn reply_text(reply: JsonView) -> Seq<char> {
    match reply.get("choices"@) {
        Some(JsonView::Array(choices)) => if choices.len() > 0 {
            or_text(opt_text(opt_get(choices[0].get("message"@), "content"@)), Seq::empty())
        } else {
            Seq::empty()
        },
        _ => Seq::empty(),
    }
}

/// Reads the title and the status line out of a reply of the model.
pub fn summary_of_reply(reply: &Json) -> (r: (Option<String>, Option<String>))
    ensures
        opt_string(r.0) == title_in(trimmed(reply_text(reply@))),
        opt_string(r.1) == status_in(trimmed(reply_text(reply@))),
{
    broadcast use group_json_view;

    let mut text = "";
    proof {
        reveal_strlit("");
    }
    assert(text@ =~= Seq::empty());
    if let Some(Json::Array(choices)) = reply.get("choices") {
        if choices.len() > 0 {
            assert(items_view(choices@)[0] == choices@[0]@);
            if let Some(message) = choices[0].get("message") {
                if let Some(content) = message.get_str("content") {
                    text = content;
                }
            }
        }
    }
    parse_title_status(trim(text))
}

// ---------------------------------------------------------------------------
// Request
// ---------------------------------------------------------------------------

pub const PROMPT_NEW: &'static str =
    "You summarize coding missions. Given a user request and assistant response, generate:\n1. A short title (3-7 words) summarizing the mission goal.\n2. A one-sentence status description (max 15 words) of what's currently happening.\n\nReply ONLY in this exact format:\nTITLE: <title>\nSTATUS: <status>";

pub const PROMPT_REFRESH_START: &'static str =
    "You summarize coding missions. The current title is: \"";

pub const PROMPT_REFRESH_END: &'static str =
    "\"\nBased on the latest conversation, generate:\n1. A short title (3-7 words) summarizing the mission goal. Keep it if still accurate, or update if the focus changed.\n2. A one-sentence status description (max 15 words) of what's currently happening.\n\nReply ONLY in this exact format:\nTITLE: <title>\nSTATUS: <status>";

/// How many bytes of a message the model is shown.
pub const EXCERPT_BYTES: usize = 600;

/// How many seconds the model is given.
pub const REQUEST_TIMEOUT_SECS: u64 = 10;

/// What the model is told to do.
pub open spec fn system_prompt(existing_title: Option<Seq<char>>, is_refresh: bool) -> Seq<char> {
    match existing_title {
        Some(title) => if is_refresh {
            PROMPT_REFRESH_START@ + title + PROMPT_REFRESH_END@
        } else {
            PROMPT_NEW@
        },
        None => PROMPT_NEW@,
    }
}

/// What the model is shown of a conversation.
pub open spec fn conversation(user: Seq<char>, assistant: Seq<char>) -> Seq<char> {
    "User request:\n"@ + prefix_within(user, EXCERPT_BYTES as int) + "\n\nAssistant response:\n"@
        + prefix_within(assistant, EXCERPT_BYTES as int)
}

/// A message for the model.
pub open spec fn message_view(role: Seq<char>, content: Seq<char>) -> JsonView {
    JsonView::Object(
        seq![("content"@, JsonView::Text(content)), ("role"@, JsonView::Text(role))],
    )
}

/// The body of a request to the model.
pub open spec fn request_view(model: Seq<char>, system: Seq<char>, user: Seq<char>) -> JsonView {
    JsonView::Object(
        seq![
            ("max_tokens"@, JsonView::Number(NumberView::Int(80))),
            (
                "messages"@,
                JsonView::Array(
                    seq![message_view("system"@, system), message_view("user"@, user)],
                ),
            ),
            ("model"@, JsonView::Text(model)),
            ("temperature"@, JsonView::Number(NumberView::Decimal("0.2"@))),
        ],
    )
}

/// A request to the model.
pub struct SummaryRequest {
    pub url: String,
    /// The value of the `Authorization` header.
    pub authorization: String,
    pub body: Json,
}

fn message_json(role: &str, content: String) -> (r: Json)
    ensures
        r@ == message_view(role@, content@),
{
    object2("content", Json::Text(content), "role", Json::Text(role.to_string()))
}

fn request_body(model: &str, system: String, user: String) -> (r: Json)
    ensures
        r@ == request_view(model@, system@, user@),
{
    broadcast use group_json_view;

    let mut messages: Vec<Json> = Vec::new();
    messages.push(message_json("system", system));
    messages.push(message_json("user", user));
    assert(items_view(messages@) =~= seq![
        message_view("system"@, system@),
        message_view("user"@, user@),
    ]);
    let mut m: Vec<(String, Json)> = Vec::new();
    m.push(("max_tokens".to_string(), Json::Number(JsonNumber::PosInt(80))));
    m.push(("messages".to_string(), Json::Array(messages)));
    m.push(("model".to_string(), Json::Text(model.to_string())));
    m.push(("temperature".to_string(), Json::Number(JsonNumber::Decimal("0.2".to_string()))));
    assert(members_view(m@) =~= request_view(model@, system@, user@)->Object_0);
    Json::Object(m)
}

/// Writes summaries of missions. `P` is where the providers of models are kept.
pub struct MetadataLlmClient<P> {
    pub config: Option<MetadataLlmConfig>,
    pub ai_providers: Option<P>,
}

impl<P> MetadataLlmClient<P> {
    /// A client that reaches no model.
    pub fn new() -> (r: Self)
        ensures
            r.config is None,
            r.ai_providers is None,
    {
        MetadataLlmClient { config: None, ai_providers: None }
    }

    /// Sets where the model is reached.
    pub fn set_config(&mut self, config: Option<MetadataLlmConfig>)
        ensures
            final(self).config == config,
            final(self).ai_providers == old(self).ai_providers,
    {
        self.config = config;
    }

    /// Keeps the providers, from which the configuration is refreshed.
    pub fn set_ai_providers(&mut self, providers: P)
        ensures
            final(self).ai_providers == Some(providers),
            final(self).config == old(self).config,
    {
        self.ai_providers = Some(providers);
    }

    /// Refreshes the configuration from what the providers offer. A client without
    /// providers keeps its configuration.
    pub fn ensure_config_fresh(&mut self, providers: &Providers, env: &EnvKeys)
        ensures
            final(self).ai_providers == old(self).ai_providers,
            old(self).ai_providers is None ==> final(self).config == old(self).config,
            old(self).ai_providers is Some ==> opt_config(final(self).config) == chosen_config(
                *providers,
                *env,
            ),
    {
        if self.ai_providers.is_some() {
            self.config = try_build_config_from_providers(providers, env);
        }
    }

    /// The request that asks for a summary of a mission; none where no model can be
    /// reached.
    pub fn summary_request(
        &self,
        user_message: &str,
        assistant_reply: &str,
        existing_title: Option<&str>,
        is_refresh: bool,
    ) -> (r: Option<SummaryRequest>)
        ensures
            match self.config {
                Some(c) => if c.api_key@.len() > 0 {
                    r matches Some(q) && {
                        &&& q.url@ == trim_back(c.base_url@, CharSet::One('/'))
                            + "/chat/completions"@
                        &&& q.authorization@ == "Bearer "@ + c.api_key@
                        &&& q.body@ == request_view(
                            c.model@,
                            system_prompt(opt_view(existing_title), is_refresh),
                            conversation(user_message@, assistant_reply@),
                        )
                    }
                } else {
                    r is None
                },
                None => r is None,
            },
    {
        let c = match &self.config {
            Some(c) => c,
            None => {
                return None;
            },
        };
        if c.api_key.as_str().is_empty() {
            return None;
        }
        let system = match existing_title {
            Some(title) => if is_refresh {
                cat3(PROMPT_REFRESH_START, title, PROMPT_REFRESH_END)
            } else {
                PROMPT_NEW.to_string()
            },
            None => PROMPT_NEW.to_string(),
        };
        let mut user = cat3(
            "User request:\n",
            truncate_to(user_message, EXCERPT_BYTES),
            "\n\nAssistant response:\n",
        );
        user.push_str(truncate_to(assistant_reply, EXCERPT_BYTES));
        Some(
            SummaryRequest {
                url: cat2(
                    trim_set_back(c.base_url.as_str(), CharSet::One('/')),
                    "/chat/completions",
                ),
                authorization: cat2("Bearer ", c.api_key.as_str()),
                body: request_body(c.model.as_str(), system, user),
            },
        )
    }
}

/// A borrowed text that may be there, as characters.
pub open spec fn opt_view(o: Option<&str>) -> Option<Seq<char>> {
    match o {
        Some(s) => Some(s@),
        None => None,
    }
}

// ---------------------------------------------------------------------------
// Providers
// ---------------------------------------------------------------------------

/// A provider of models.
pub struct Provider {
    pub base_url: Option<String>,
    pub api_key: Option<String>,
    pub oauth_access_token: Option<String>,
}

/// The providers that are set up.
pub struct Providers {
    pub openrouter: Option<Provider>,
    pub groq: Option<Provider>,
    pub cerebras: Option<Provider>,
    pub openai: Option<Provider>,
    pub google: Option<Provider>,
}

/// The API keys in the environment.
pub struct EnvKeys {
    /// `OPENROUTER_API_KEY`.
    pub openrouter: Option<String>,
    /// `CEREBRAS_API_KEY`.
    pub cerebras: Option<String>,
    /// `GROQ_API_KEY`.
    pub groq: Option<String>,
    /// `OPENAI_API_KEY`.
    pub openai: Option<String>,
}

pub const OPENROUTER_URL: &'static str = "https://openrouter.ai/api/v1";

pub const OPENROUTER_MODEL: &'static str = "google/gemini-2.0-flash-001";

pub const GROQ_URL: &'static str = "https://api.groq.com/openai/v1";

pub const GROQ_MODEL: &'static str = "llama-3.3-70b-versatile";

pub const CEREBRAS_URL: &'static str = "https://api.cerebras.ai/v1";

pub const CEREBRAS_MODEL: &'static str = "llama-3.3-70b";

pub const OPENAI_URL: &'static str = "https://api.openai.com/v1";

pub const OPENAI_MODEL: &'static str = "gpt-4.1-nano";

pub const GOOGLE_URL: &'static str = "https://generativelanguage.googleapis.com/v1beta/openai";

pub const GOOGLE_MODEL: &'static str = "gemini-2.0-flash";

/// A configuration, as its base URL, API key and model.
pub open spec fn opt_config(c: Option<MetadataLlmConfig>) -> Option<
    (Seq<char>, Seq<char>, Seq<char>),
> {
    match c {
        Some(c) => Some((c.base_url@, c.api_key@, c.model@)),
        None => None,
    }
}

/// What a provider with an API key offers.
pub open spec fn keyed(p: Option<Provider>, url: Seq<char>, model: Seq<char>) -> Option<
    (Seq<char>, Seq<char>, Seq<char>),
> {
    match p {
        Some(p) => match p.api_key {
            Some(key) => Some((or_text(opt_string(p.base_url), url), key@, model)),
            None => None,
        },
        None => None,
    }
}

/// What Google offers to a user who has signed in.
pub open spec fn signed_in(p: Option<Provider>) -> Option<(Seq<char>, Seq<char>, Seq<char>)> {
    match p {
        Some(p) => match p.oauth_access_token {
            Some(token) => if token@.len() > 0 {
                Some((GOOGLE_URL@, token@, GOOGLE_MODEL@))
            } else {
                None
            },
            None => None,
        },
        None => None,
    }
}

/// What a key in the environment offers.
pub open spec fn from_env(key: Option<String>, url: Seq<char>, model: Seq<char>) -> Option<
    (Seq<char>, Seq<char>, Seq<char>),
> {
    match key {
        Some(k) => if blank(k@) {
            None
        } else {
            Some((url, k@, model))
        },
        None => None,
    }
}

/// The first offer, in the order of preference: the providers, from the cheapest on, and
/// then the keys in the environment.
pub open spec fn chosen_config(p: Providers, env: EnvKeys) -> Option<
    (Seq<char>, Seq<char>, Seq<char>),
> {
    if keyed(p.openrouter, OPENROUTER_URL@, OPENROUTER_MODEL@) is Some {
        keyed(p.openrouter, OPENROUTER_URL@, OPENROUTER_MODEL@)
    } else if keyed(p.groq, GROQ_URL@, GROQ_MODEL@) is Some {
        keyed(p.groq, GROQ_URL@, GROQ_MODEL@)
    } else if keyed(p.cerebras, CEREBRAS_URL@, CEREBRAS_MODEL@) is Some {
        keyed(p.cerebras, CEREBRAS_URL@, CEREBRAS_MODEL@)
    } else if keyed(p.openai, OPENAI_URL@, OPENAI_MODEL@) is Some {
        keyed(p.openai, OPENAI_URL@, OPENAI_MODEL@)
    } else if signed_in(p.google) is Some {
        signed_in(p.google)
    } else if from_env(env.openrouter, OPENROUTER_URL@, OPENROUTER_MODEL@) is Some {
        from_env(env.openrouter, OPENROUTER_URL@, OPENROUTER_MODEL@)
    } else if from_env(env.cerebras, CEREBRAS_URL@, CEREBRAS_MODEL@) is Some {
        from_env(env.cerebras, CEREBRAS_URL@, CEREBRAS_MODEL@)
    } else if from_env(env.groq, GROQ_URL@, GROQ_MODEL@) is Some {
        from_env(env.groq, GROQ_URL@, GROQ_MODEL@)
    } else {
        from_env(env.openai, OPENAI_URL@, OPENAI_MODEL@)
    }
}

fn keyed_config(p: &Option<Provider>, url: &str, model: &str) -> (r: Option<MetadataLlmConfig>)
    ensures
        opt_config(r) == keyed(*p, url@, model@),
{
    match p {
        Some(p) => match &p.api_key {
            Some(key) => {
                let base_url = match clone_opt(&p.base_url) {
                    Some(u) => u,
                    None => url.to_string(),
                };
                Some(
                    MetadataLlmConfig { base_url, api_key: key.clone(), model: model.to_string() },
                )
            },
            None => None,
        },
        None => None,
    }
}

fn signed_in_config(p: &Option<Provider>) -> (r: Option<MetadataLlmConfig>)
    ensures
        opt_config(r) == signed_in(*p),
{
    match p {
        Some(p) => match &p.oauth_access_token {
            Some(token) => if token.as_str().is_empty() {
                None
            } else {
                Some(
                    MetadataLlmConfig {
                        base_url: GOOGLE_URL.to_string(),
                        api_key: token.clone(),
                        model: GOOGLE_MODEL.to_string(),
                    },
                )
            },
            None => None,
        },
        None => None,
    }
}

fn env_config(key: &Option<String>, url: &str, model: &str) -> (r: Option<MetadataLlmConfig>)
    ensures
        opt_config(r) == from_env(*key, url@, model@),
{
    match key {
        Some(k) => if is_blank(k.as_str()) {
            None
        } else {
            Some(
                MetadataLlmConfig {
                    base_url: url.to_string(),
                    api_key: k.clone(),
                    model: model.to_string(),
                },
            )
        },
        None => None,
    }
}

/// Where the model is reached, by the first provider, or key in the environment, that
/// offers one.
pub fn try_build_config_from_providers(p: &Providers, env: &EnvKeys) -> (r: Option<
    MetadataLlmConfig,
>)
    ensures
        opt_config(r) == chosen_config(*p, *env),
{
    let c = keyed_config(&p.openrouter, OPENROUTER_URL, OPENROUTER_MODEL);
    if c.is_some() {
        return c;
    }
    let c = keyed_config(&p.groq, GROQ_URL, GROQ_MODEL);
    if c.is_some() {
        return c;
    }
    let c = keyed_config(&p.cerebras, CEREBRAS_URL, CEREBRAS_MODEL);
    if c.is_some() {
        return c;
    }
    let c = keyed_config(&p.openai, OPENAI_URL, OPENAI_MODEL);
    if c.is_some() {
        return c;
    }
    let c = signed_in_config(&p.google);
    if c.is_some() {
        return c;
    }
    let c = env_config(&env.openrouter, OPENROUTER_URL, OPENROUTER_MODEL);
    if c.is_some() {
        return c;
    }
    let c = env_config(&env.cerebras, CEREBRAS_URL, CEREBRAS_MODEL);
    if c.is_some() {
        return c;
    }
    let c = env_config(&env.groq, GROQ_URL, GROQ_MODEL);
    if c.is_some() {
        return c;
    }
    env_config(&env.openai, OPENAI_URL, OPENAI_MODEL)
}

// ---------------------------------------------------------------------------
// Laws
// ---------------------------------------------------------------------------

/// The request names the model that is configured, and holds two messages: what the model is
/// to do, from the system, and then the conversation, from the user.
pub proof fn law_request_says_what_it_was_given(
    model: Seq<char>,
    system: Seq<char>,
    user: Seq<char>,
)
    ensures
        ({
            let body = request_view(model, system, user);
            &&& body.get("model"@) == Some(JsonView::Text(model))
            &&& body.get("max_tokens"@) == Some(JsonView::Number(NumberView::Int(80)))
            &&& body.get("temperature"@) == Some(JsonView::Number(NumberView::Decimal("0.2"@)))
            &&& body.get("messages"@) matches Some(JsonView::Array(m)) && {
                &&& m.len() == 2
                &&& m[0].get("role"@) == Some(JsonView::Text("system"@))
                &&& m[0].get("content"@) == Some(JsonView::Text(system))
                &&& m[1].get("role"@) == Some(JsonView::Text("user"@))
                &&& m[1].get("content"@) == Some(JsonView::Text(user))
            }
        }),
{
    reveal_strlit("max_tokens");
    reveal_strlit("messages");
    reveal_strlit("model");
    reveal_strlit("temperature");
    reveal_strlit("content");
    reveal_strlit("role");
    let body = request_view(model, system, user)->Object_0;
    assert("max_tokens"@.len() == 10 && "messages"@.len() == 8 && "model"@.len() == 5
        && "temperature"@.len() == 11 && "content"@.len() == 7 && "role"@.len() == 4);
    law_first_member_is_found(body, 0);
    law_first_member_is_found(body, 1);
    law_first_member_is_found(body, 2);
    law_first_member_is_found(body, 3);
    let first = message_view("system"@, system)->Object_0;
    let second = message_view("user"@, user)->Object_0;
    law_first_member_is_found(first, 0);
    law_first_member_is_found(first, 1);
    law_first_member_is_found(second, 0);
    law_first_member_is_found(second, 1);
}

/// The model is shown the first 600 bytes of what the user said and of what was answered, and
/// all of it where it is shorter, each under a heading of its own.
pub proof fn law_conversation_is_shown(user: Seq<char>, assistant: Seq<char>)
    ensures
        exists|u: Seq<char>, a: Seq<char>|
            {
                &&& conversation(user, assistant) == "User request:\n"@ + u
                    + "\n\nAssistant response:\n"@ + a
                &&& #[trigger] is_excerpt(user, u)
                &&& #[trigger] is_excerpt(assistant, a)
            },
{
    let u = prefix_within(user, 600);
    let a = prefix_within(assistant, 600);
    lemma_excerpt(user);
    lemma_excerpt(assistant);
    assert(is_excerpt(user, u) && is_excerpt(assistant, a));
}

/// Whether `e` is as much of `s` as goes into 600 bytes.
pub open spec fn is_excerpt(s: Seq<char>, e: Seq<char>) -> bool {
    &&& e.len() <= s.len() && e == s.take(e.len() as int)
    &&& encode_utf8(e).len() <= 600
    &&& e.len() < s.len() ==> encode_utf8(s.take(e.len() as int + 1)).len() > 600
}

proof fn lemma_excerpt(s: Seq<char>)
    ensures
        is_excerpt(s, prefix_within(s, 600)),
{
    lemma_chars_within(s, 600);
    let n = prefix_within(s, 600).len();
    assert(prefix_within(s, 600) =~= s.take(n as int));
}

/// The model is told the title that a mission has where it is to be refreshed, and never else.
/// Either way it is told how to reply.
pub proof fn law_prompt_names_the_title(title: Seq<char>, other: Option<Seq<char>>, refresh: bool)
    ensures
        system_prompt(Some(title), true) == "You summarize coding missions. The current title is: \""@
            + title
            + "\"\nBased on the latest conversation, generate:\n1. A short title (3-7 words) summarizing the mission goal. Keep it if still accurate, or update if the focus changed.\n2. A one-sentence status description (max 15 words) of what's currently happening.\n\nReply ONLY in this exact format:\nTITLE: <title>\nSTATUS: <status>"@,
        other is None || !refresh ==> system_prompt(other, refresh)
            == "You summarize coding missions. Given a user request and assistant response, generate:\n1. A short title (3-7 words) summarizing the mission goal.\n2. A one-sentence status description (max 15 words) of what's currently happening.\n\nReply ONLY in this exact format:\nTITLE: <title>\nSTATUS: <status>"@,
{
}

/// What a line gives under its label, however many spaces and quotation marks stand around it.
pub proof fn law_labelled_value_is_read(
    indent: Seq<char>,
    label: Seq<char>,
    open: Seq<char>,
    value: Seq<char>,
    close: Seq<char>,
    max: int,
)
    requires
        forall|i: int| 0 <= i < indent.len() ==> #[trigger] indent[i] == ' ',
        forall|i: int| 0 <= i < open.len() ==> #[trigger] open[i] == '"',
        forall|i: int| 0 <= i < close.len() ==> #[trigger] close[i] == '"',
        label.len() > 0 && !is_whitespace(label[0]),
        value.len() > 0 && value[0] != '"' && value.last() != '"',
        !is_whitespace(value[0]) && !is_whitespace(value.last()),
    ensures
        labelled(indent + label + seq![' '] + open + value + close, label, max) == if encode_utf8(
            value,
        ).len() <= max {
            Some(value)
        } else {
            None
        },
{
    let ws = CharSet::Whitespace;
    let quote = CharSet::One('"');
    let none = Seq::<char>::empty();
    let quoted = open + value + close;
    let line = label + seq![' '] + quoted;
    assert(quoted.last() == '"' || quoted.last() == value.last());
    assert(quoted[0] == '"' || quoted[0] == value[0]);
    assert(line.last() == quoted.last() && line[0] == label[0]);
    law_trim_keeps_the_middle(indent, line, none, ws);
    assert(indent + line + none =~= indent + label + seq![' '] + open + value + close);
    law_parts_of_a_text(none, label, seq![' '] + quoted);
    assert(label + (seq![' '] + quoted) =~= line);
    law_trim_keeps_the_middle(seq![' '], quoted, none, ws);
    assert(seq![' '] + quoted + none =~= seq![' '] + quoted);
    law_trim_keeps_the_middle(open, value, close, quote);
    law_trim_keeps_the_middle(none, value, none, ws);
    assert(none + value + none =~= value);
}

/// A line that does not begin with the label, but for whitespace, gives nothing under it.
pub proof fn law_unlabelled_line_gives_nothing(line: Seq<char>, label: Seq<char>, max: int)
    requires
        forall|rest: Seq<char>| trimmed(line) != #[trigger] (label + rest),
    ensures
        labelled(line, label, max) is None,
{
    law_found_parts_are_there(trimmed(line), label);
}

/// Of several lines that give a value, the last one counts.
pub proof fn law_last_line_counts(
    before: Seq<Seq<char>>,
    line: Seq<char>,
    after: Seq<Seq<char>>,
    label: Seq<char>,
    max: int,
)
    requires
        labelled(line, label, max) is Some,
        forall|i: int| 0 <= i < after.len() ==> labelled(#[trigger] after[i], label, max) is None,
    ensures
        last_labelled(before + seq![line] + after, label, max) == labelled(line, label, max),
        last_labelled(after, label, max) is None,
    decreases after.len(),
{
    let all = before + seq![line] + after;
    if after.len() == 0 {
        assert(all.last() == line);
    } else {
        let fewer = after.drop_last();
        assert forall|i: int| 0 <= i < fewer.len() implies labelled(
            #[trigger] fewer[i],
            label,
            max,
        ) is None by {
            assert(fewer[i] == after[i]);
        }
        law_last_line_counts(before, line, fewer, label, max);
        assert(all.last() == after[after.len() - 1]);
        assert(all.drop_last() =~= before + seq![line] + fewer);
    }
}

/// The title and the status are read off their own lines: a title of at most 100 bytes and a
/// status of at most 200.
pub proof fn law_title_and_status_have_labels(before: Seq<char>, line: Seq<char>)
    requires
        forall|i: int| 0 <= i < line.len() ==> #[trigger] line[i] != '\n',
    ensures
        labelled(line, "TITLE:"@, 100) is Some ==> title_in(before + seq!['\n'] + line) == labelled(
            line,
            "TITLE:"@,
            100,
        ),
        labelled(line, "TITLE:"@, 100) is None ==> title_in(before + seq!['\n'] + line) == title_in(
            before,
        ),
        labelled(line, "STATUS:"@, 200) is Some ==> status_in(before + seq!['\n'] + line)
            == labelled(line, "STATUS:"@, 200),
        labelled(line, "STATUS:"@, 200) is None ==> status_in(before + seq!['\n'] + line)
            == status_in(before),
{
    let set = CharSet::One('\n');
    law_split_parts_at_separators(before, '\n', line, set);
    lemma_split_whole(line, set);
    let all = lines_of(before) + seq![line];
    assert(all.last() == line);
    assert(all.drop_last() =~= lines_of(before));
}

/// The text of a reply is the content of the message in its first choice.
pub proof fn law_first_choice_counts(
    reply: JsonView,
    first: JsonView,
    others: Seq<JsonView>,
    message: JsonView,
    content: Seq<char>,
)
    requires
        reply.get("choices"@) == Some(JsonView::Array(seq![first] + others)),
        first.get("message"@) == Some(message),
        message.get("content"@) == Some(JsonView::Text(content)),
    ensures
        reply_text(reply) == content,
{
}

/// The provider that a model is reached at: one with a key, at its own address where it has
/// one, and with the model that is used there.
pub proof fn law_provider_is_reached(p: Provider, env: EnvKeys, key: String)
    requires
        p.api_key == Some(key),
    ensures
        ({
            let at = |url: Seq<char>|
                match p.base_url {
                    Some(own) => own@,
                    None => url,
                };
            let none = Providers {
                openrouter: None,
                groq: None,
                cerebras: None,
                openai: None,
                google: None,
            };
            &&& chosen_config(Providers { openrouter: Some(p), ..none }, env) == Some(
                (at("https://openrouter.ai/api/v1"@), key@, "google/gemini-2.0-flash-001"@),
            )
            &&& chosen_config(Providers { groq: Some(p), ..none }, env) == Some(
                (at("https://api.groq.com/openai/v1"@), key@, "llama-3.3-70b-versatile"@),
            )
            &&& chosen_config(Providers { cerebras: Some(p), ..none }, env) == Some(
                (at("https://api.cerebras.ai/v1"@), key@, "llama-3.3-70b"@),
            )
            &&& chosen_config(Providers { openai: Some(p), ..none }, env) == Some(
                (at("https://api.openai.com/v1"@), key@, "gpt-4.1-nano"@),
            )
        }),
{
}

/// A provider with a key comes before those behind it, and before any key in the environment.
pub proof fn law_providers_have_an_order(p: Providers, env: EnvKeys, other: Providers, keys: EnvKeys)
    ensures
        p.openrouter matches Some(q) && q.api_key is Some ==> chosen_config(p, env)
            == chosen_config(Providers { openrouter: p.openrouter, ..other }, keys),
        ({
            let from_groq = Providers { openrouter: None, groq: p.groq, ..other };
            p.groq matches Some(q) && q.api_key is Some ==> chosen_config(
                Providers { openrouter: None, ..p },
                env,
            ) == chosen_config(from_groq, keys)
        }),
        ({
            let none = Providers { openrouter: None, groq: None, ..p };
            let from_cerebras = Providers {
                openrouter: None,
                groq: None,
                cerebras: p.cerebras,
                ..other
            };
            p.cerebras matches Some(q) && q.api_key is Some ==> chosen_config(none, env)
                == chosen_config(from_cerebras, keys)
        }),
        ({
            let none = Providers { openrouter: None, groq: None, cerebras: None, ..p };
            p.openai matches Some(q) && q.api_key is Some ==> chosen_config(none, env)
                == chosen_config(Providers { google: other.google, ..none }, keys)
        }),
{
}

/// Without a provider that has a key, Google is reached with the token of a user who signed
/// in, and else the first key in the environment that is not blank is used.
pub proof fn law_other_ways_to_a_model(google: Provider, token: String, env: EnvKeys, key: String)
    requires
        !blank(key@),
    ensures
        ({
            let none = Providers {
                openrouter: None,
                groq: None,
                cerebras: None,
                openai: None,
                google: None,
            };
            let no_key = EnvKeys { openrouter: None, cerebras: None, groq: None, openai: None };
            &&& google.oauth_access_token == Some(token) && token@.len() > 0 ==> chosen_config(
                Providers { google: Some(google), ..none },
                env,
            ) == Some(
                (
                    "https://generativelanguage.googleapis.com/v1beta/openai"@,
                    token@,
                    "gemini-2.0-flash"@,
                ),
            )
            &&& chosen_config(none, EnvKeys { openrouter: Some(key), ..env }) == Some(
                ("https://openrouter.ai/api/v1"@, key@, "google/gemini-2.0-flash-001"@),
            )
            &&& chosen_config(none, EnvKeys { openrouter: None, cerebras: Some(key), ..env })
                == Some(("https://api.cerebras.ai/v1"@, key@, "llama-3.3-70b"@))
            &&& chosen_config(none, EnvKeys { groq: Some(key), openai: env.openai, ..no_key })
                == Some(("https://api.groq.com/openai/v1"@, key@, "llama-3.3-70b-versatile"@))
            &&& chosen_config(none, EnvKeys { openai: Some(key), ..no_key }) == Some(
                ("https://api.openai.com/v1"@, key@, "gpt-4.1-nano"@),
            )
            &&& chosen_config(none, no_key) is None
        }),
{
}

} // verus!
