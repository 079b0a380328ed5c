//! The Telegram bridge: which messages are answered, what is handed to a mission,
//! and the requests of the bot API.
use std::collections::HashMap;
use vstd::prelude::*;

use crate::ids::{uuid_text, uuid_to_string};
use crate::json::{
    group_json_view, items_view, law_first_member_is_found, law_found_member_is_there, lookup,
    members_view, Json, JsonNumber, JsonView, NumberView,
};
use crate::telegram_html::{chunk_html, truncate_for_telegram, MAX_MESSAGE_CHARS};
use crate::text::{
    before_first, cat2, cat3, chars_of, clone_opt, contains, decimal, eq_ignoring_case, first_chars,
    has_infix, has_prefix, has_suffix, i64_text, is_whitespace, join, joined, law_case_of_letters,
    law_found_parts_are_there, law_parts_of_a_text, law_text_before_a_character,
    law_trim_front_cuts_the_front, law_trim_keeps_the_middle, lowercase, opt_string, same_ignoring_case,
    signed_decimal, starts_with, str_eq, strip_prefix, strip_prefix_ignoring_case, take_chars,
    text_before, to_lowercase, trim, trim_back, trim_front, trim_set_back, trim_set_front, trimmed,
    u64_text, units_match, units_match_at, utf16, utf16_units, without_prefix, CharSet,
};

verus! {

// ---------------------------------------------------------------------------
// Bot API types
// ---------------------------------------------------------------------------

#[derive(Debug)]
pub struct TelegramResponse<T> {
    pub ok: bool,
    pub result: Option<T>,
    pub description: Option<String>,
}

#[derive(Debug)]
pub struct Update {
    pub update_id: i64,
    pub message: Option<Message>,
}

#[derive(Debug)]
pub struct Message {
    pub message_id: i64,
    pub chat: Chat,
    pub from: Option<User>,
    pub text: Option<String>,
    /// The text below a photo, a document or other media.
    pub caption: Option<String>,
    pub reply_to_message: Option<Box<Message>>,
    pub entities: Option<Vec<MessageEntity>>,
    pub caption_entities: Option<Vec<MessageEntity>>,
    pub document: Option<TelegramDocument>,
    /// One photo in several sizes, the largest last.
    pub photo: Option<Vec<PhotoSize>>,
    pub voice: Option<TelegramFile>,
    pub audio: Option<TelegramFile>,
    pub video: Option<TelegramFile>,
}

#[derive(Debug)]
pub struct TelegramDocument {
    pub file_id: String,
    pub file_name: Option<String>,
    pub mime_type: Option<String>,
    pub file_size: Option<i64>,
}

#[derive(Debug)]
pub struct PhotoSize {
    pub file_id: String,
    pub width: i64,
    pub height: i64,
    pub file_size: Option<i64>,
}

#[derive(Debug)]
pub struct TelegramFile {
    pub file_id: String,
    pub file_name: Option<String>,
    pub mime_type: Option<String>,
    pub file_size: Option<i64>,
}

#[derive(Debug)]
pub struct Chat {
    pub id: i64,
    pub chat_type: String,
}

#[derive(Debug)]
pub struct User {
    pub id: i64,
    pub first_name: String,
    pub last_name: Option<String>,
    pub username: Option<String>,
}

/// A stretch of a message's text, counted in UTF-16 code units.
#[derive(Debug)]
pub struct MessageEntity {
    pub entity_type: String,
    pub offset: i64,
    pub length: i64,
}

/// Which messages a channel answers.
#[derive(Debug, Clone, Copy, PartialEq, Eq, Structural)]
pub enum TelegramTriggerMode {
    MentionOrDm,
    BotMention,
    Reply,
    DirectMessage,
    Always,
}

/// A bot that is connected to missions.
#[derive(Debug)]
pub struct TelegramChannel {
    pub id: u128,
    pub mission_id: u128,
    pub bot_token: String,
    pub bot_username: Option<String>,
    pub webhook_secret: Option<String>,
    pub allowed_chat_ids: Vec<i64>,
    pub trigger_mode: TelegramTriggerMode,
    pub instructions: Option<String>,
    pub auto_create_missions: bool,
    pub default_workspace_id: Option<u128>,
    pub default_agent: Option<String>,
    pub default_model_override: Option<String>,
    pub default_model_effort: Option<String>,
    pub default_backend: Option<String>,
    pub default_config_profile: Option<String>,
}

// ---------------------------------------------------------------------------
// Triggers
// ---------------------------------------------------------------------------

/// Whether an entity mentions `target`. Nothing where its bounds do not delimit a
/// stretch of the text.
pub open spec fn mention_at(e: MessageEntity, text: Option<Seq<char>>, target: Seq<char>) -> Option<
    bool,
> {
    if e.entity_type@ != "mention"@ {
        Some(false)
    } else {
        match text {
            None => Some(false),
            Some(t) => {
                let units = utf16(t);
                let end = e.offset + e.length;
                if end < i64::MIN || end > i64::MAX {
                    None
                } else if 0 <= end <= units.len() {
                    if 0 <= e.offset <= end {
                        Some(units_match(units.subrange(e.offset as int, end), utf16(target)))
                    } else {
                        None
                    }
                } else {
                    Some(false)
                }
            },
        }
    }
}

/// Whether one of `entities` mentions `target`. Nothing where an entity before that
/// does not delimit a stretch of the text.
pub open spec fn mentioned(
    entities: Seq<MessageEntity>,
    text: Option<Seq<char>>,
    target: Seq<char>,
) -> Option<bool>
    decreases entities.len(),
{
    if entities.len() == 0 {
        Some(false)
    } else {
        match mention_at(entities[0], text, target) {
            Some(false) => mentioned(entities.drop_first(), text, target),
            other => other,
        }
    }
}

pub open spec fn mentioned_in(
    entities: Option<Vec<MessageEntity>>,
    text: Option<String>,
    target: Seq<char>,
) -> Option<bool> {
    match entities {
        Some(v) => mentioned(v@, opt_string(text), target),
        None => Some(false),
    }
}

/// Whether a message mentions the bot, in its text or its caption.
pub open spec fn mentions_bot(msg: Message, bot_username: Seq<char>) -> Option<bool> {
    let target = "@"@ + bot_username;
    match mentioned_in(msg.entities, msg.text, target) {
        Some(false) => mentioned_in(msg.caption_entities, msg.caption, target),
        other => other,
    }
}

/// Whether a message answers one of the bot's.
pub open spec fn replies_to_bot(msg: Message, bot_username: Seq<char>) -> bool {
    match msg.reply_to_message {
        Some(r) => match r.from {
            Some(u) => match u.username {
                Some(name) => same_ignoring_case(name@, bot_username),
                None => false,
            },
            None => false,
        },
        None => false,
    }
}

/// Whether a chat may use a channel: every chat, unless some are listed.
pub open spec fn is_allowed_chat(channel: TelegramChannel, chat_id: i64) -> bool {
    channel.allowed_chat_ids@.len() == 0 || channel.allowed_chat_ids@.contains(chat_id)
}

/// Whether a channel answers a message. Nothing where a mention's bounds do not
/// delimit a stretch of its text.
pub open spec fn answers(channel: TelegramChannel, msg: Message, bot_username: Seq<char>) -> Option<
    bool,
> {
    if !is_allowed_chat(channel, msg.chat.id) {
        Some(false)
    } else {
        let private = msg.chat.chat_type@ == "private"@;
        let reply = replies_to_bot(msg, bot_username);
        match mentions_bot(msg, bot_username) {
            None => None,
            Some(mention) => Some(
                match channel.trigger_mode {
                    TelegramTriggerMode::MentionOrDm => private || mention || reply,
                    TelegramTriggerMode::BotMention => mention,
                    TelegramTriggerMode::Reply => reply,
                    TelegramTriggerMode::DirectMessage => private,
                    TelegramTriggerMode::Always => true,
                },
            ),
        }
    }
}

fn entity_mentions(
    e: &MessageEntity,
    text: &Option<String>,
    target_units: &Vec<u16>,
    Ghost(target): Ghost<Seq<char>>,
) -> (r: Option<bool>)
    requires
        target_units@ == utf16(target),
    ensures
        r == mention_at(*e, opt_string(*text), target),
{
    if !str_eq(e.entity_type.as_str(), "mention") {
        return Some(false);
    }
    match text {
        None => Some(false),
        Some(t) => {
            let units = utf16_units(t.as_str());
            match e.offset.checked_add(e.length) {
                None => None,
                Some(end) => {
                    if 0 <= end && end as u64 <= units.len() as u64 {
                        if 0 <= e.offset && e.offset <= end {
                            Some(
                                units_match_at(
                                    &units,
                                    e.offset as usize,
                                    end as usize,
                                    target_units,
                                ),
                            )
                        } else {
                            None
                        }
                    } else {
                        Some(false)
                    }
                },
            }
        },
    }
}

fn has_mention_in(
    entities: &Option<Vec<MessageEntity>>,
    text: &Option<String>,
    target: &str,
) -> (r: Option<bool>)
    ensures
        r == mentioned_in(*entities, *text, target@),
{
    let units = utf16_units(target);
    match entities {
        None => Some(false),
        Some(v) => {
            let mut i: usize = 0;
            assert(v@.skip(0) == v@);
            while i < v.len()
                invariant
                    i <= v@.len(),
                    units@ == utf16(target@),
                    mentioned_in(*entities, *text, target@) == mentioned(
                        v@,
                        opt_string(*text),
                        target@,
                    ),
                    mentioned(v@, opt_string(*text), target@) == mentioned(
                        v@.skip(i as int),
                        opt_string(*text),
                        target@,
                    ),
                decreases v@.len() - i,
            {
                assert(v@.skip(i as int).drop_first() == v@.skip(i + 1));
                let found = entity_mentions(&v[i], text, &units, Ghost(target@));
                match found {
                    Some(false) => {},
                    _ => {
                        return found;
                    },
                }
                i += 1;
            }
            Some(false)
        },
    }
}

fn contains_id(ids: &Vec<i64>, id: i64) -> (r: bool)
    ensures
        r == ids@.contains(id),
{
    let mut i: usize = 0;
    while i < ids.len()
        invariant
            i <= ids@.len(),
            forall|k: int| 0 <= k < i ==> #[trigger] ids@[k] != id,
        decreases ids@.len() - i,
    {
        if ids[i] == id {
            return true;
        }
        i += 1;
    }
    false
}

/// Whether a chat may use a channel.
pub fn chat_is_allowed(channel: &TelegramChannel, chat_id: i64) -> (r: bool)
    ensures
        r == is_allowed_chat(*channel, chat_id),
{
    channel.allowed_chat_ids.len() == 0 || contains_id(&channel.allowed_chat_ids, chat_id)
}

/// Whether a channel answers a message. Nothing where a mention's bounds do not
/// delimit a stretch of its text.
pub fn answers_message(channel: &TelegramChannel, msg: &Message, bot_username: &str) -> (r: Option<
    bool,
>)
    ensures
        r == answers(*channel, *msg, bot_username@),
{
    if !chat_is_allowed(channel, msg.chat.id) {
        return Some(false);
    }
    let is_private = str_eq(msg.chat.chat_type.as_str(), "private");
    let target = cat2("@", bot_username);
    let is_mention = match has_mention_in(&msg.entities, &msg.text, target.as_str()) {
        None => {
            return None;
        },
        Some(true) => true,
        Some(false) => match has_mention_in(
            &msg.caption_entities,
            &msg.caption,
            target.as_str(),
        ) {
            None => {
                return None;
            },
            Some(b) => b,
        },
    };
    let is_reply = match &msg.reply_to_message {
        Some(r) => match &r.from {
            Some(u) => match &u.username {
                Some(name) => eq_ignoring_case(name.as_str(), bot_username),
                None => false,
            },
            None => false,
        },
        None => false,
    };
    Some(
        match channel.trigger_mode {
            TelegramTriggerMode::MentionOrDm => is_private || is_mention || is_reply,
            TelegramTriggerMode::BotMention => is_mention,
            TelegramTriggerMode::Reply => is_reply,
            TelegramTriggerMode::DirectMessage => is_private,
            TelegramTriggerMode::Always => true,
        },
    )
}

/// Whether a channel answers a message whose mentions delimit stretches of its text.
pub fn should_process_message(channel: &TelegramChannel, msg: &Message, bot_username: &str) -> (r:
    bool)
    requires
        answers(*channel, *msg, bot_username@) is Some,
    ensures
        Some(r) == answers(*channel, *msg, bot_username@),
{
    match answers_message(channel, msg, bot_username) {
        Some(b) => b,
        None => false,
    }
}

// ---------------------------------------------------------------------------
// Text of a message
// ---------------------------------------------------------------------------

/// A text without whitespace at its ends and without the bot's name at its
/// beginning.
pub open spec fn without_mention(text: Seq<char>, bot_username: Seq<char>) -> Seq<char> {
    let t = trimmed(text);
    let mention = "@"@ + bot_username;
    if mention.len() <= t.len() && same_ignoring_case(t.take(mention.len() as int), mention) {
        trimmed(t.skip(mention.len() as int))
    } else {
        t
    }
}

pub fn strip_bot_mention(text: &str, bot_username: &str) -> (r: String)
    ensures
        r@ == without_mention(text@, bot_username@),
{
    let mention = cat2("@", bot_username);
    let t = trim(text);
    match strip_prefix_ignoring_case(t, mention.as_str()) {
        Some(rest) => trim(rest).to_string(),
        None => t.to_string(),
    }
}

/// What a message says: its text, or the caption of its media.
pub open spec fn said(msg: Message) -> Seq<char> {
    match msg.text {
        Some(t) => t@,
        None => match msg.caption {
            Some(c) => c@,
            None => Seq::empty(),
        },
    }
}

/// `o`, or `d` where there is nothing.
pub open spec fn text_else(o: Option<String>, d: Seq<char>) -> Seq<char> {
    match o {
        Some(s) => s@,
        None => d,
    }
}

/// The file of a message: its identifier, its name and its type.
pub open spec fn file_of(msg: Message) -> Option<(Seq<char>, Seq<char>, Seq<char>)> {
    if msg.document is Some {
        let d = msg.document->0;
        Some(
            (
                d.file_id@,
                text_else(d.file_name, "document_"@ + first_chars(d.file_id@, 8)),
                text_else(d.mime_type, "application/octet-stream"@),
            ),
        )
    } else if msg.photo is Some && msg.photo->0@.len() > 0 {
        let p = msg.photo->0@.last();
        Some(
            (p.file_id@, "photo_"@ + first_chars(p.file_id@, 8) + ".jpg"@, "image/jpeg"@),
        )
    } else if msg.voice is Some {
        let f = msg.voice->0;
        Some(
            (
                f.file_id@,
                text_else(f.file_name, "voice_message.ogg"@),
                text_else(f.mime_type, "audio/ogg"@),
            ),
        )
    } else if msg.audio is Some {
        let f = msg.audio->0;
        Some(
            (
                f.file_id@,
                text_else(f.file_name, "audio.mp3"@),
                text_else(f.mime_type, "audio/mpeg"@),
            ),
        )
    } else if msg.video is Some {
        let f = msg.video->0;
        Some(
            (
                f.file_id@,
                text_else(f.file_name, "video.mp4"@),
                text_else(f.mime_type, "video/mp4"@),
            ),
        )
    } else {
        None
    }
}

/// The model of a file of a message.
pub open spec fn file_view(o: Option<(String, String, String)>) -> Option<
    (Seq<char>, Seq<char>, Seq<char>),
> {
    match o {
        Some(f) => Some((f.0@, f.1@, f.2@)),
        None => None,
    }
}

fn clone_or(o: &Option<String>, d: &str) -> (r: String)
    ensures
        r@ == text_else(*o, d@),
{
    match o {
        Some(s) => s.clone(),
        None => d.to_string(),
    }
}

/// The file of a message: its identifier, its name and its type.
pub fn extract_file_info(msg: &Message) -> (r: Option<(String, String, String)>)
    ensures
        file_view(r) == file_of(*msg),
{
    if let Some(doc) = &msg.document {
        let made = cat2("document_", take_chars(doc.file_id.as_str(), 8));
        let name = clone_or(&doc.file_name, made.as_str());
        let mime = clone_or(&doc.mime_type, "application/octet-stream");
        return Some((doc.file_id.clone(), name, mime));
    }
    if let Some(photos) = &msg.photo {
        if photos.len() > 0 {
            let largest = &photos[photos.len() - 1];
            let name = cat3("photo_", take_chars(largest.file_id.as_str(), 8), ".jpg");
            return Some((largest.file_id.clone(), name, "image/jpeg".to_string()));
        }
    }
    if let Some(voice) = &msg.voice {
        let name = clone_or(&voice.file_name, "voice_message.ogg");
        let mime = clone_or(&voice.mime_type, "audio/ogg");
        return Some((voice.file_id.clone(), name, mime));
    }
    if let Some(audio) = &msg.audio {
        let name = clone_or(&audio.file_name, "audio.mp3");
        let mime = clone_or(&audio.mime_type, "audio/mpeg");
        return Some((audio.file_id.clone(), name, mime));
    }
    if let Some(video) = &msg.video {
        let name = clone_or(&video.file_name, "video.mp4");
        let mime = clone_or(&video.mime_type, "video/mp4");
        return Some((video.file_id.clone(), name, mime));
    }
    None
}

/// What the sender of a message is called.
pub open spec fn sender_of(msg: Message) -> Seq<char> {
    match msg.from {
        Some(u) => match u.username {
            Some(name) => "@"@ + name@,
            None => match u.last_name {
                Some(last) => u.first_name@ + " "@ + last@,
                None => u.first_name@,
            },
        },
        None => "Unknown"@,
    }
}

pub fn sender_name(msg: &Message) -> (r: String)
    ensures
        r@ == sender_of(*msg),
{
    match &msg.from {
        Some(u) => match &u.username {
            Some(name) => cat2("@", name.as_str()),
            None => match &u.last_name {
                Some(last) => cat3(u.first_name.as_str(), " ", last.as_str()),
                None => u.first_name.clone(),
            },
        },
        None => "Unknown".to_string(),
    }
}

// ---------------------------------------------------------------------------
// Incoming messages
// ---------------------------------------------------------------------------

/// The mission that a message goes to.
#[derive(Debug, Clone, Copy, PartialEq, Eq, Structural)]
pub enum Target {
    /// The mission of the chat, which is created where there is none.
    FindOrCreate,
    /// The mission of the chat; where there is none the message is dropped.
    FindOnly,
    /// This mission.
    Mission(u128),
}

/// A message that is to be handed to a mission.
pub struct Incoming {
    /// Whether it is answered; else it is only kept as context.
    pub respond: bool,
    pub sender: String,
    pub text: String,
    pub file: Option<(String, String, String)>,
    pub target: Target,
}

/// Whether there is anything in a message.
pub open spec fn is_empty_message(msg: Message) -> bool {
    said(msg).len() == 0 && file_of(msg) is None
}

fn said_in(msg: &Message) -> (r: &str)
    ensures
        r@ == said(*msg),
{
    match &msg.text {
        Some(t) => t.as_str(),
        None => match &msg.caption {
            Some(c) => c.as_str(),
            None => {
                proof {
                    reveal_strlit("");
                    assert(""@ =~= Seq::<char>::empty());
                }
                ""
            },
        },
    }
}

/// Whether a message is empty: nothing is done with it.
pub fn message_is_empty(msg: &Message) -> (r: bool)
    ensures
        r == is_empty_message(*msg),
{
    said_in(msg).is_empty() && extract_file_info(msg).is_none()
}

/// Where a message goes: a message that is only context starts no mission.
pub open spec fn target_of(channel: TelegramChannel, respond: bool) -> Target {
    if !channel.auto_create_missions {
        Target::Mission(channel.mission_id)
    } else if respond {
        Target::FindOrCreate
    } else {
        Target::FindOnly
    }
}

/// Whether something is done with a message: it says something, and comes from a chat that
/// may use the channel.
pub open spec fn is_heeded(channel: TelegramChannel, msg: Message) -> bool {
    !is_empty_message(msg) && is_allowed_chat(channel, msg.chat.id)
}

/// Whether `r` is what is to be done with a message.
pub open spec fn plans(
    channel: TelegramChannel,
    msg: Message,
    bot_username: Seq<char>,
    r: Option<Incoming>,
) -> bool {
    &&& r is Some == is_heeded(channel, msg)
    &&& r matches Some(i) ==> {
        &&& Some(i.respond) == answers(channel, msg, bot_username)
        &&& i.sender@ == sender_of(msg)
        &&& i.text@ == without_mention(said(msg), bot_username)
        &&& file_view(i.file) == file_of(msg)
        &&& i.target == target_of(channel, i.respond)
    }
}

/// What is to be done with a message. Nothing is done with an empty one, nor with one from
/// a chat that may not use the channel.
pub fn plan_webhook_message(channel: &TelegramChannel, msg: &Message, bot_username: &str) -> (r:
    Option<Incoming>)
    requires
        is_heeded(*channel, *msg) ==> answers(*channel, *msg, bot_username@) is Some,
    ensures
        plans(*channel, *msg, bot_username@, r),
{
    let said = said_in(msg);
    let file = extract_file_info(msg);
    if said.is_empty() && file.is_none() {
        return None;
    }
    if !chat_is_allowed(channel, msg.chat.id) {
        return None;
    }
    let respond = should_process_message(channel, msg, bot_username);
    let target = if !channel.auto_create_missions {
        Target::Mission(channel.mission_id)
    } else if respond {
        Target::FindOrCreate
    } else {
        Target::FindOnly
    };
    Some(
        Incoming {
            respond,
            sender: sender_name(msg),
            text: strip_bot_mention(said, bot_username),
            file,
            target,
        },
    )
}

/// The note on a file that was saved.
pub open spec fn saved_note(name: Seq<char>, mime: Seq<char>, path: Seq<char>) -> Seq<char> {
    "[Attached file: "@ + name + " ("@ + mime + "), saved to: "@ + path + "]"@
}

/// The note on a file that could not be downloaded.
pub open spec fn failed_note(name: Seq<char>, mime: Seq<char>, error: Seq<char>) -> Seq<char> {
    "[Attached file: "@ + name + " ("@ + mime + ") \u{2014} download failed: "@ + error + "]"@
}

/// The note on the file of a message, given where it was saved or why it was not.
pub fn file_annotation(filename: &str, mime: &str, saved: Result<String, String>) -> (r: String)
    ensures
        r@ == match saved {
            Ok(path) => saved_note(filename@, mime@, path@),
            Err(e) => failed_note(filename@, mime@, e@),
        },
{
    let mut out = cat3("[Attached file: ", filename, " (");
    out.push_str(mime);
    match saved {
        Ok(path) => {
            out.push_str("), saved to: ");
            out.push_str(path.as_str());
        },
        Err(e) => {
            out.push_str(") \u{2014} download failed: ");
            out.push_str(e.as_str());
        },
    }
    out.push_str("]");
    out
}

/// The parts of what a mission is told of a message.
pub open spec fn content_parts(
    sender: Seq<char>,
    chat_id: int,
    instructions: Option<Seq<char>>,
    file_note: Option<Seq<char>>,
    text: Seq<char>,
) -> Seq<Seq<char>> {
    let head = "[Telegram from "@ + sender + " in chat "@ + signed_decimal(chat_id) + "]"@;
    let with_instructions = match instructions {
        Some(i) => seq![head, "[Instructions: "@ + i + "]"@],
        None => seq![head],
    };
    let with_file = match file_note {
        Some(f) => with_instructions.push(f),
        None => with_instructions,
    };
    if text.len() > 0 {
        with_file.push(text)
    } else {
        with_file
    }
}

/// What a mission is told of a message.
pub fn message_content(
    sender: &str,
    chat_id: i64,
    instructions: &Option<String>,
    file_note: &Option<String>,
    text: &str,
) -> (r: String)
    ensures
        r@ == joined(
            content_parts(
                sender@,
                chat_id as int,
                opt_string(*instructions),
                opt_string(*file_note),
                text@,
            ),
            " "@,
        ),
{
    let mut parts: Vec<String> = Vec::new();
    let id = i64_text(chat_id);
    let mut head = cat3("[Telegram from ", sender, " in chat ");
    head.push_str(id.as_str());
    head.push_str("]");
    parts.push(head);
    if let Some(i) = instructions {
        parts.push(cat3("[Instructions: ", i.as_str(), "]"));
    }
    if let Some(f) = file_note {
        parts.push(f.clone());
    }
    if !text.is_empty() {
        parts.push(text.to_string());
    }
    assert(parts.deep_view() =~= content_parts(
        sender@,
        chat_id as int,
        opt_string(*instructions),
        opt_string(*file_note),
        text@,
    ));
    join(&parts, " ")
}

proof fn lemma_joined_prefix(parts: Seq<Seq<char>>, sep: Seq<char>, k: int)
    requires
        1 <= k <= parts.len(),
    ensures
        has_prefix(joined(parts, sep), joined(parts.take(k), sep)),
    decreases parts.len(),
{
    if k == parts.len() {
        assert(parts.take(k) =~= parts);
        assert(joined(parts, sep).take(joined(parts, sep).len() as int) =~= joined(parts, sep));
    } else {
        let before = parts.drop_last();
        assert(before.take(k) =~= parts.take(k));
        lemma_joined_prefix(before, sep, k);
        let p = joined(parts.take(k), sep);
        assert(joined(parts, sep).take(p.len() as int) =~= joined(before, sep).take(
            p.len() as int,
        ));
    }
}

/// The instructions of a channel stand before everything else that is said in a
/// message.
pub proof fn law_instructions_come_first(
    sender: Seq<char>,
    chat_id: int,
    instructions: Seq<char>,
    file_note: Option<Seq<char>>,
    text: Seq<char>,
)
    ensures
        has_prefix(
            joined(content_parts(sender, chat_id, Some(instructions), file_note, text), " "@),
            "[Telegram from "@ + sender + " in chat "@ + signed_decimal(chat_id) + "]"@ + " "@
                + ("[Instructions: "@ + instructions + "]"@),
        ),
{
    let parts = content_parts(sender, chat_id, Some(instructions), file_note, text);
    lemma_joined_prefix(parts, " "@, 2);
    let two = parts.take(2);
    assert(two.drop_last() =~= seq![parts[0]]);
    assert(joined(two.drop_last(), " "@) == parts[0]);
}

/// A chat that is not among the allowed ones is never answered, and nothing is done with
/// what is said there: no mission is told or keeps it, and no file of it is saved.
pub proof fn law_other_chats_are_ignored(
    channel: TelegramChannel,
    msg: Message,
    bot_username: Seq<char>,
    r: Option<Incoming>,
)
    requires
        channel.allowed_chat_ids@.len() > 0,
        !channel.allowed_chat_ids@.contains(msg.chat.id),
        plans(channel, msg, bot_username, r),
    ensures
        answers(channel, msg, bot_username) == Some(false),
        r is None,
{
}

/// What each mode answers in the chats that may use the channel: every message, the
/// messages that mention the bot, those that reply to it, those in a private chat, or any
/// of the last three.
pub proof fn law_mode_decides_in_allowed_chats(
    channel: TelegramChannel,
    msg: Message,
    bot_username: Seq<char>,
)
    requires
        is_allowed_chat(channel, msg.chat.id),
        answers(channel, msg, bot_username) is Some,
    ensures
        ({
            let answered = answers(channel, msg, bot_username)->0;
            let mention = mentions_bot(msg, bot_username) == Some(true);
            let reply = replies_to_bot(msg, bot_username);
            let private = msg.chat.chat_type@ == "private"@;
            match channel.trigger_mode {
                TelegramTriggerMode::Always => answered,
                TelegramTriggerMode::BotMention => answered == mention,
                TelegramTriggerMode::Reply => answered == reply,
                TelegramTriggerMode::DirectMessage => answered == private,
                TelegramTriggerMode::MentionOrDm => answered == (private || mention || reply),
            }
        }),
{
}

/// A message that is only context never starts a mission.
pub proof fn law_context_starts_no_mission(channel: TelegramChannel)
    ensures
        target_of(channel, false) != Target::FindOrCreate,
{
}

// ---------------------------------------------------------------------------
// Missions of chats
// ---------------------------------------------------------------------------

/// A request for a new mission.
pub struct CreateMission {
    pub title: Option<String>,
    pub workspace_id: Option<u128>,
    pub agent: Option<String>,
    pub model_override: Option<String>,
    pub model_effort: Option<String>,
    pub backend: Option<String>,
    pub config_profile: Option<String>,
}

/// The name of an agent without what follows in parentheses.
pub open spec fn bare_agent(name: Seq<char>) -> Seq<char> {
    match before_first(name, '(') {
        Some(t) => trimmed(t),
        None => trimmed(name),
    }
}

pub fn bare_agent_name(name: &str) -> (r: &str)
    ensures
        r@ == bare_agent(name@),
{
    match text_before(name, '(') {
        Some(t) => trim(t),
        None => trim(name),
    }
}

/// The request for the mission of a chat. The agent goes by its name in lower case,
/// without what follows in parentheses.
pub fn chat_mission_request(channel: &TelegramChannel, sender: &str) -> (r: CreateMission)
    ensures
        opt_string(r.title) == Some("Telegram: "@ + sender@),
        opt_string(r.agent) == match channel.default_agent {
            Some(a) => Some(lowercase(bare_agent(a@))),
            None => None,
        },
        r.workspace_id == channel.default_workspace_id,
        r.model_override == channel.default_model_override,
        r.model_effort == channel.default_model_effort,
        r.backend == channel.default_backend,
        r.config_profile == channel.default_config_profile,
{
    let agent = match &channel.default_agent {
        Some(a) => Some(to_lowercase(bare_agent_name(a.as_str()))),
        None => None,
    };
    CreateMission {
        title: Some(cat2("Telegram: ", sender)),
        workspace_id: channel.default_workspace_id,
        agent,
        model_override: clone_opt(&channel.default_model_override),
        model_effort: clone_opt(&channel.default_model_effort),
        backend: clone_opt(&channel.default_backend),
        config_profile: clone_opt(&channel.default_config_profile),
    }
}

/// What is done once a mission was created and its chat recorded.
#[derive(Debug, Clone, Copy, PartialEq, Eq, Structural)]
pub enum MappingStep {
    /// The mission is used.
    Use(u128),
    /// Another message was faster: its mission is looked up.
    LookUp,
    /// The mission cannot be used.
    GiveUp,
}

/// What is done with the mission `created`, given how recording its chat went.
pub fn after_mapping(created: u128, stored: Result<(), String>) -> (r: MappingStep)
    ensures
        r == match stored {
            Ok(_) => MappingStep::Use(created),
            Err(e) => if has_infix(e@, "UNIQUE constraint"@) {
                MappingStep::LookUp
            } else {
                MappingStep::GiveUp
            },
        },
{
    match stored {
        Ok(_) => MappingStep::Use(created),
        Err(e) => if contains(e.as_str(), "UNIQUE constraint") {
            MappingStep::LookUp
        } else {
            MappingStep::GiveUp
        },
    }
}

/// The mission that is used once it was looked up: the one that was found, else the
/// one that was created.
pub fn after_lookup(created: u128, found: Option<u128>) -> (r: u128)
    ensures
        r == match found {
            Some(id) => id,
            None => created,
        },
{
    match found {
        Some(id) => id,
        None => created,
    }
}

/// What is sent where no mission could be created.
pub fn no_mission_text() -> (r: String)
    ensures
        r@ == "Sorry, I couldn't start a new conversation. Please try again."@,
{
    "Sorry, I couldn't start a new conversation. Please try again.".to_string()
}

// ---------------------------------------------------------------------------
// Requests of the bot API
// ---------------------------------------------------------------------------

/// The address of a bot.
pub open spec fn bot_url(token: Seq<char>) -> Seq<char> {
    "https://api.telegram.org/bot"@ + token
}

pub fn bot_base_url(token: &str) -> (r: String)
    ensures
        r@ == bot_url(token@),
{
    cat2("https://api.telegram.org/bot", token)
}

/// The address of a method.
pub fn method_url(base_url: &str, method: &str) -> (r: String)
    ensures
        r@ == base_url@ + "/"@ + method@,
{
    cat3(base_url, "/", method)
}

/// The address at which a channel's updates arrive.
pub fn webhook_url(public_base_url: &str, channel_id: u128) -> (r: String)
    ensures
        r@ == trim_back(public_base_url@, CharSet::One('/')) + "/api/telegram/webhook/"@
            + uuid_text(channel_id),
{
    let id = uuid_to_string(channel_id);
    cat3(
        trim_set_back(public_base_url, CharSet::One('/')),
        "/api/telegram/webhook/",
        id.as_str(),
    )
}

/// The name of a channel's bot, given what the bot API said where it is not known.
pub fn resolve_bot_username(channel: &TelegramChannel, fetched: Option<String>) -> (r: String)
    ensures
        r@ == match channel.bot_username {
            Some(u) => u@,
            None => text_else(fetched, Seq::empty()),
        },
{
    match &channel.bot_username {
        Some(u) => u.clone(),
        None => match fetched {
            Some(u) => u,
            None => String::new(),
        },
    }
}

/// The name in a reply to `getMe`.
pub fn bot_username_reply(username: Option<String>) -> (r: Result<String, String>)
    ensures
        match username {
            Some(u) => r == Ok::<String, String>(u),
            None => r matches Err(e) && e@ == "Bot has no username"@,
        },
{
    match username {
        Some(u) => Ok(u),
        None => Err("Bot has no username".to_string()),
    }
}

/// Why a channel could not be started.
pub fn webhook_failure(channel_id: u128, error: &str) -> (r: String)
    ensures
        r@ == "Failed to set Telegram webhook for channel "@ + uuid_text(channel_id) + ": "@
            + error@,
{
    let id = uuid_to_string(channel_id);
    let mut out = cat3("Failed to set Telegram webhook for channel ", id.as_str(), ": ");
    out.push_str(error);
    out
}

/// The body of `setWebhook`: only messages are asked for, and what is pending is
/// dropped.
pub open spec fn set_webhook_json(url: Seq<char>, secret: Option<Seq<char>>) -> JsonView {
    let first = seq![
        ("allowed_updates"@, JsonView::Array(seq![JsonView::Text("message"@)])),
        ("drop_pending_updates"@, JsonView::Bool(true)),
    ];
    let second = match secret {
        Some(s) => seq![("secret_token"@, JsonView::Text(s))],
        None => Seq::empty(),
    };
    JsonView::Object(first + second + seq![("url"@, JsonView::Text(url))])
}

pub fn set_webhook_body(url: &str, secret: &Option<String>) -> (r: Json)
    ensures
        r@ == set_webhook_json(url@, opt_string(*secret)),
{
    broadcast use group_json_view;

    let mut updates: Vec<Json> = Vec::new();
    updates.push(Json::Text("message".to_string()));
    assert(items_view(updates@) =~= seq![JsonView::Text("message"@)]);
    let mut m: Vec<(String, Json)> = Vec::new();
    m.push(("allowed_updates".to_string(), Json::Array(updates)));
    m.push(("drop_pending_updates".to_string(), Json::Bool(true)));
    if let Some(s) = secret {
        m.push(("secret_token".to_string(), Json::Text(s.clone())));
    }
    m.push(("url".to_string(), Json::Text(url.to_string())));
    assert(JsonView::Object(members_view(m@)) == set_webhook_json(url@, opt_string(*secret))) by {
        assert(members_view(m@) =~= set_webhook_json(url@, opt_string(*secret))->Object_0);
    }
    Json::Object(m)
}

/// What a reply of `method` that carries no result means.
pub fn api_outcome(method: &str, ok: bool, description: Option<String>) -> (r: Result<(), String>)
    ensures
        r is Ok == ok,
        r matches Err(e) ==> e@ == method@ + " API error: "@ + text_else(
            description,
            Seq::empty(),
        ),
{
    if ok {
        Ok(())
    } else {
        let d = match description {
            Some(d) => d,
            None => String::new(),
        };
        Err(cat3(method, " API error: ", d.as_str()))
    }
}

fn int_json(n: i64) -> (r: Json)
    ensures
        r@ == JsonView::Number(NumberView::Int(n as int)),
{
    Json::Number(JsonNumber::NegInt(n))
}

/// The body of `sendChatAction`.
pub fn typing_body(chat_id: i64) -> (r: Json)
    ensures
        r@ == JsonView::Object(
            seq![
                ("action"@, JsonView::Text("typing"@)),
                ("chat_id"@, JsonView::Number(NumberView::Int(chat_id as int))),
            ],
        ),
{
    broadcast use group_json_view;

    let mut m: Vec<(String, Json)> = Vec::new();
    m.push(("action".to_string(), Json::Text("typing".to_string())));
    m.push(("chat_id".to_string(), int_json(chat_id)));
    assert(members_view(m@) =~= seq![
        ("action"@, JsonView::Text("typing"@)),
        ("chat_id"@, JsonView::Number(NumberView::Int(chat_id as int))),
    ]);
    Json::Object(m)
}

/// The body of `sendMessage` with a message of HTML.
pub open spec fn send_json(chat_id: int, html: Seq<char>, reply_to: Option<i64>) -> JsonView {
    let first = seq![
        ("chat_id"@, JsonView::Number(NumberView::Int(chat_id))),
        ("text"@, JsonView::Text(html)),
    ];
    let second = match reply_to {
        Some(id) => seq![
            ("reply_to_message_id"@, JsonView::Number(NumberView::Int(id as int))),
        ],
        None => Seq::empty(),
    };
    JsonView::Object(first + second + seq![("parse_mode"@, JsonView::Text("HTML"@))])
}

/// The body of `sendMessage` for a text, of which at most one message is sent.
pub fn send_message_body(chat_id: i64, text: &str, reply_to: Option<i64>) -> (r: Json)
    ensures
        r@ == send_json(
            chat_id as int,
            chunk_html(text@, MAX_MESSAGE_CHARS as int, "..."@),
            reply_to,
        ),
{
    broadcast use group_json_view;

    let display = truncate_for_telegram(text);
    let ghost html = display.html@;
    let mut m: Vec<(String, Json)> = Vec::new();
    m.push(("chat_id".to_string(), int_json(chat_id)));
    m.push(("text".to_string(), Json::Text(display.html)));
    if let Some(id) = reply_to {
        m.push(("reply_to_message_id".to_string(), int_json(id)));
    }
    m.push(("parse_mode".to_string(), Json::Text("HTML".to_string())));
    assert(members_view(m@) =~= send_json(chat_id as int, html, reply_to)->Object_0);
    Json::Object(m)
}

/// The body of `editMessageText`.
pub open spec fn edit_json(chat_id: int, message_id: int, html: Seq<char>) -> JsonView {
    JsonView::Object(
        seq![
            ("chat_id"@, JsonView::Number(NumberView::Int(chat_id))),
            ("message_id"@, JsonView::Number(NumberView::Int(message_id))),
            ("text"@, JsonView::Text(html)),
            ("parse_mode"@, JsonView::Text("HTML"@)),
        ],
    )
}

/// The body of `editMessageText`. A message is never edited to nothing.
pub fn edit_message_body(chat_id: i64, message_id: i64, html: &str) -> (r: Option<Json>)
    ensures
        match r {
            Some(j) => html@.len() > 0 && j@ == edit_json(
                chat_id as int,
                message_id as int,
                html@,
            ),
            None => html@.len() == 0,
        },
{
    broadcast use group_json_view;

    if html.is_empty() {
        return None;
    }
    let mut m: Vec<(String, Json)> = Vec::new();
    m.push(("chat_id".to_string(), int_json(chat_id)));
    m.push(("message_id".to_string(), int_json(message_id)));
    m.push(("text".to_string(), Json::Text(html.to_string())));
    m.push(("parse_mode".to_string(), Json::Text("HTML".to_string())));
    assert(members_view(m@) =~= edit_json(
        chat_id as int,
        message_id as int,
        html@,
    )->Object_0);
    Some(Json::Object(m))
}

/// What a failed call of `method` is reported as.
pub open spec fn http_error(method: Seq<char>, status: Seq<char>, body: Seq<char>) -> Seq<char> {
    method + " API error "@ + status + ": "@ + body
}

pub fn http_failure(method: &str, status: &str, body: &str) -> (r: String)
    ensures
        r@ == http_error(method@, status@, body@),
{
    let mut out = cat3(method, " API error ", status);
    out.push_str(": ");
    out.push_str(body);
    out
}

/// What an edit that was refused means. That nothing changed is no error.
pub fn edit_refused(status: &str, body: &str) -> (r: Result<(), String>)
    ensures
        r is Ok == has_infix(body@, "message is not modified"@),
        r matches Err(e) ==> e@ == http_error("editMessageText"@, status@, body@),
{
    if contains(body, "message is not modified") {
        Ok(())
    } else {
        Err(http_failure("editMessageText", status, body))
    }
}

/// The message in a reply to `sendMessage`.
pub fn sent_message_id(result: Option<i64>) -> (r: Result<i64, String>)
    ensures
        match result {
            Some(id) => r == Ok::<i64, String>(id),
            None => r matches Err(e) && e@ == "sendMessage returned no result"@,
        },
{
    match result {
        Some(id) => Ok(id),
        None => Err("sendMessage returned no result".to_string()),
    }
}

// ---------------------------------------------------------------------------
// Files
// ---------------------------------------------------------------------------

/// The most bytes of a file that are received or sent.
pub const MAX_FILE_SIZE: u64 = 52_428_800;

/// The path in a reply to `getFile`.
pub fn file_path_reply(file_path: Option<String>) -> (r: Result<String, String>)
    ensures
        match file_path {
            Some(p) => r == Ok::<String, String>(p),
            None => r matches Err(e) && e@ == "getFile returned no file_path"@,
        },
{
    match file_path {
        Some(p) => Ok(p),
        None => Err("getFile returned no file_path".to_string()),
    }
}

/// The address of a file.
pub fn download_url(bot_token: &str, file_path: &str) -> (r: String)
    ensures
        r@ == "https://api.telegram.org/file/bot"@ + bot_token@ + "/"@ + file_path@,
{
    let mut out = cat3("https://api.telegram.org/file/bot", bot_token, "/");
    out.push_str(file_path);
    out
}

/// Whether a received file is small enough.
pub fn check_download_size(bytes: u64) -> (r: Result<(), String>)
    ensures
        r is Ok == (bytes <= MAX_FILE_SIZE),
        r matches Err(e) ==> e@ == "File too large: "@ + decimal(bytes as nat)
            + " bytes (limit: "@ + decimal(MAX_FILE_SIZE as nat) + " bytes)"@,
{
    if bytes <= MAX_FILE_SIZE {
        Ok(())
    } else {
        let n = u64_text(bytes);
        let limit = u64_text(MAX_FILE_SIZE);
        let mut out = cat3("File too large: ", n.as_str(), " bytes (limit: ");
        out.push_str(limit.as_str());
        out.push_str(" bytes)");
        Err(out)
    }
}

/// Whether a file to be sent is small enough.
pub fn check_upload_size(bytes: u64) -> (r: Result<(), String>)
    ensures
        r is Ok == (bytes <= MAX_FILE_SIZE),
        r matches Err(e) ==> e@ == "File too large: "@ + decimal(bytes as nat) + " bytes (max "@
            + decimal(MAX_FILE_SIZE as nat) + ")"@,
{
    if bytes <= MAX_FILE_SIZE {
        Ok(())
    } else {
        let n = u64_text(bytes);
        let limit = u64_text(MAX_FILE_SIZE);
        let mut out = cat3("File too large: ", n.as_str(), " bytes (max ");
        out.push_str(limit.as_str());
        out.push_str(")");
        Err(out)
    }
}

/// Whether `c` may not stand in the name of a file.
pub open spec fn is_path_char(c: char) -> bool {
    c == '/' || c == '\\' || c == '\0'
}

/// A name in which no separator of a path stands.
pub open spec fn safe_name(name: Seq<char>) -> Seq<char> {
    name.map_values(
        |c: char|
            if is_path_char(c) {
                '_'
            } else {
                c
            },
    )
}

/// The name under which a received file is saved.
pub fn safe_file_name(name: &str) -> (r: String)
    ensures
        r@ == safe_name(name@),
{
    let v = chars_of(name);
    let mut out = String::new();
    let mut i: usize = 0;
    while i < v.len()
        invariant
            i <= v@.len(),
            out@ == safe_name(v@).take(i as int),
        decreases v@.len() - i,
    {
        let c = v[i];
        assert(safe_name(v@).take(i + 1) =~= safe_name(v@).take(i as int).push(
            safe_name(v@)[i as int],
        ));
        if c == '/' || c == '\\' || c == '\0' {
            out.push('_');
        } else {
            out.push(c);
        }
        i += 1;
    }
    assert(out@ =~= safe_name(v@));
    out
}

/// The name under which a file that is to be sent is kept meanwhile.
pub open spec fn outbound_name(name: Seq<char>) -> Seq<char> {
    let t = trim_front(safe_name(name), CharSet::One('.'));
    if t.len() == 0 {
        "file"@
    } else {
        t
    }
}

pub fn outbound_file_name(name: &str) -> (r: String)
    ensures
        r@ == outbound_name(name@),
{
    let safe = safe_file_name(name);
    let t = trim_set_front(safe.as_str(), CharSet::One('.'));
    if t.is_empty() {
        "file".to_string()
    } else {
        t.to_string()
    }
}

proof fn lemma_trim_front_suffix(s: Seq<char>, set: CharSet)
    ensures
        trim_front(s, set).len() <= s.len(),
        trim_front(s, set) == s.skip(s.len() - trim_front(s, set).len()),
        trim_front(s, set).len() > 0 ==> !set.has(trim_front(s, set)[0]),
    decreases s.len(),
{
    if s.len() > 0 && set.has(s[0]) {
        lemma_trim_front_suffix(s.drop_first(), set);
        let t = trim_front(s.drop_first(), set);
        assert(s.drop_first().skip(s.len() - 1 - t.len()) =~= s.skip(s.len() - t.len()));
    } else {
        assert(s.skip(0) =~= s);
    }
}

/// A file that is to be sent is kept under a name that is not empty, begins with no
/// dot and leads into no other directory.
pub proof fn law_outbound_name_is_safe(name: Seq<char>)
    ensures
        outbound_name(name).len() > 0,
        outbound_name(name)[0] != '.',
        forall|i: int|
            0 <= i < outbound_name(name).len() ==> !is_path_char(#[trigger] outbound_name(name)[i]),
{
    reveal_strlit("file");
    let s = safe_name(name);
    let t = trim_front(s, CharSet::One('.'));
    lemma_trim_front_suffix(s, CharSet::One('.'));
    assert forall|i: int| 0 <= i < outbound_name(name).len() implies !is_path_char(
        #[trigger] outbound_name(name)[i],
    ) by {
        if t.len() > 0 {
            assert(t[i] == s[i + (s.len() - t.len())]);
        }
    }
}

/// Whether a file is fetched from the network rather than read from disk.
pub fn is_remote_file(url: &str) -> (r: bool)
    ensures
        r == (has_prefix(url@, "http://"@) || has_prefix(url@, "https://"@)),
{
    starts_with(url, "http://") || starts_with(url, "https://")
}

/// The path of a file on disk: what follows `file://` in its address, or the address.
pub open spec fn path_of(url: Seq<char>) -> Seq<char> {
    match without_prefix(url, "file://"@) {
        Some(path) => path,
        None => url,
    }
}

pub fn local_file_path(url: &str) -> (r: &str)
    ensures
        r@ == path_of(url@),
{
    match strip_prefix(url, "file://") {
        Some(path) => path,
        None => url,
    }
}

/// Whether a path, given in its canonical form, is `dir` or lies under it.
pub open spec fn lies_under(path: Seq<char>, dir: Seq<char>) -> bool {
    path == dir || has_prefix(path, dir + "/"@)
}

/// Whether the file at a canonical path may be sent.
pub fn check_local_path(canonical: &str) -> (r: Result<(), String>)
    ensures
        r is Ok == (lies_under(canonical@, "/root/workspaces"@) || lies_under(
            canonical@,
            "/tmp"@,
        )),
        r matches Err(e) ==> e@ == "File path outside allowed directories: "@ + canonical@,
{
    proof {
        reveal_strlit("/root/workspaces");
        reveal_strlit("/root/workspaces/");
        reveal_strlit("/tmp");
        reveal_strlit("/tmp/");
        reveal_strlit("/");
        assert("/root/workspaces"@ + "/"@ =~= "/root/workspaces/"@);
        assert("/tmp"@ + "/"@ =~= "/tmp/"@);
    }
    if str_eq(canonical, "/root/workspaces") || starts_with(canonical, "/root/workspaces/")
        || str_eq(canonical, "/tmp") || starts_with(canonical, "/tmp/") {
        Ok(())
    } else {
        Err(cat2("File path outside allowed directories: ", canonical))
    }
}

/// Whether a file of this type is sent as a photo.
pub open spec fn is_photo(content_type: Seq<char>) -> bool {
    has_prefix(content_type, "image/"@) && !has_infix(content_type, "svg"@)
}

/// The method by which a file is sent, and the field that holds it.
pub fn send_file_endpoint(content_type: &str) -> (r: (String, String))
    ensures
        is_photo(content_type@) ==> r.0@ == "sendPhoto"@ && r.1@ == "photo"@,
        !is_photo(content_type@) ==> r.0@ == "sendDocument"@ && r.1@ == "document"@,
{
    if starts_with(content_type, "image/") && !contains(content_type, "svg") {
        ("sendPhoto".to_string(), "photo".to_string())
    } else {
        ("sendDocument".to_string(), "document".to_string())
    }
}

// ---------------------------------------------------------------------------
// Channels
// ---------------------------------------------------------------------------

/// What is known of a channel whose webhook is registered.
#[derive(Debug)]
pub struct ChannelContext {
    pub channel: TelegramChannel,
    pub bot_username: String,
}

impl Clone for ChannelContext {
    fn clone(&self) -> (r: Self)
        ensures
            r.bot_username == self.bot_username,
            same_channel(r.channel, self.channel),
    {
        let c = &self.channel;
        ChannelContext {
            channel: TelegramChannel {
                id: c.id,
                mission_id: c.mission_id,
                bot_token: c.bot_token.clone(),
                bot_username: clone_opt(&c.bot_username),
                webhook_secret: clone_opt(&c.webhook_secret),
                allowed_chat_ids: c.allowed_chat_ids.clone(),
                trigger_mode: c.trigger_mode,
                instructions: clone_opt(&c.instructions),
                auto_create_missions: c.auto_create_missions,
                default_workspace_id: c.default_workspace_id,
                default_agent: clone_opt(&c.default_agent),
                default_model_override: clone_opt(&c.default_model_override),
                default_model_effort: clone_opt(&c.default_model_effort),
                default_backend: clone_opt(&c.default_backend),
                default_config_profile: clone_opt(&c.default_config_profile),
            },
            bot_username: self.bot_username.clone(),
        }
    }
}

/// Whether two channels are set up alike.
pub open spec fn same_channel(a: TelegramChannel, b: TelegramChannel) -> bool {
    &&& a.allowed_chat_ids@ == b.allowed_chat_ids@
    &&& a == (TelegramChannel { allowed_chat_ids: a.allowed_chat_ids, ..b })
}

/// The channels whose webhooks are registered.
pub struct TelegramBridge {
    active_channels: HashMap<u128, ChannelContext>,
}

impl View for TelegramBridge {
    type V = Map<u128, ChannelContext>;

    closed spec fn view(&self) -> Map<u128, ChannelContext> {
        self.active_channels@
    }
}

impl TelegramBridge {
    pub fn new() -> (r: Self)
        ensures
            r@ == Map::<u128, ChannelContext>::empty(),
    {
        TelegramBridge { active_channels: HashMap::new() }
    }

    /// Records a channel whose webhook was registered.
    pub fn start_channel(&mut self, context: ChannelContext)
        ensures
            final(self)@ == old(self)@.insert(context.channel.id, context),
    {
        broadcast use vstd::std_specs::hash::group_hash_axioms;

        self.active_channels.insert(context.channel.id, context);
    }

    /// Forgets a channel, and returns what was known of it: its webhook is to be
    /// deleted.
    pub fn stop_channel(&mut self, channel_id: u128) -> (r: Option<ChannelContext>)
        ensures
            final(self)@ == old(self)@.remove(channel_id),
            match r {
                Some(c) => old(self)@.dom().contains(channel_id) && old(self)@[channel_id] == c,
                None => !old(self)@.dom().contains(channel_id),
            },
    {
        broadcast use vstd::std_specs::hash::group_hash_axioms;

        let r = self.active_channels.remove(&channel_id);
        assert(self@ =~= old(self)@.remove(channel_id));
        r
    }

    /// Forgets every channel, and returns what was known of them, each once and in
    /// any order: their webhooks are to be deleted.
    pub fn stop_all(&mut self) -> (r: Vec<(u128, ChannelContext)>)
        ensures
            final(self)@ == Map::<u128, ChannelContext>::empty(),
            forall|i: int|
                0 <= i < r@.len() ==> old(self)@.dom().contains((#[trigger] r@[i]).0) && old(self)@[
                    r@[i].0] == r@[i].1,
            forall|i: int, j: int|
                0 <= i < j < r@.len() ==> (#[trigger] r@[i]).0 != (#[trigger] r@[j]).0,
            forall|id: u128| #[trigger]
                old(self)@.dom().contains(id) ==> exists|i: int|
                    0 <= i < r@.len() && (#[trigger] r@[i]).0 == id,
    {
        broadcast use vstd::std_specs::hash::group_hash_axioms;

        let mut ids: Vec<u128> = Vec::new();
        let ghost all = self.active_channels@;
        for k in it: self.active_channels.keys()
            invariant
                ids@ == it.seq().unref().take(it.index() as int),
                it.seq().unref().to_set() == all.dom(),
                it.seq().unref().no_duplicates(),
                it.index() == it.seq().len() ==> ids@ =~= it.seq().unref(),
        {
            ids.push(*k);
        }
        assert forall|id: u128| #[trigger] all.dom().contains(id) implies exists|k: int|
            0 <= k < ids@.len() && #[trigger] ids@[k] == id by {
            assert(ids@.to_set().contains(id));
        }
        assert forall|k: int| 0 <= k < ids@.len() implies all.dom().contains(#[trigger] ids@[k]) by {
            assert(ids@.to_set().contains(ids@[k]));
        }
        let mut out: Vec<(u128, ChannelContext)> = Vec::new();
        let mut i: usize = 0;
        while i < ids.len()
            invariant
                i <= ids@.len(),
                out@.len() == i,
                ids@.no_duplicates(),
                ids@.to_set() == all.dom(),
                forall|k: int|
                    0 <= k < i ==> (#[trigger] out@[k]).0 == ids@[k] && out@[k].1 == all[ids@[k]],
                forall|id: u128| #[trigger]
                    self.active_channels@.dom().contains(id) <==> exists|k: int|
                        i <= k < ids@.len() && #[trigger] ids@[k] == id,
                forall|id: u128|
                    self.active_channels@.dom().contains(id)
                        ==> #[trigger] self.active_channels@[id] == all[id],
            decreases ids@.len() - i,
        {
            let id = ids[i];
            if let Some(c) = self.active_channels.remove(&id) {
                out.push((id, c));
            }
            i += 1;
        }
        assert(self@ =~= Map::<u128, ChannelContext>::empty());
        assert forall|id: u128| #[trigger] all.dom().contains(id) implies exists|k: int|
            0 <= k < out@.len() && (#[trigger] out@[k]).0 == id by {
            assert(ids@.to_set().contains(id));
            let k = ids@.index_of(id);
            assert(out@[k].0 == id);
        }
        out
    }

    pub fn is_running(&self, channel_id: u128) -> (r: bool)
        ensures
            r == self@.dom().contains(channel_id),
    {
        broadcast use vstd::std_specs::hash::group_hash_axioms;

        self.active_channels.contains_key(&channel_id)
    }

    pub fn get_channel_context(&self, channel_id: u128) -> (r: Option<&ChannelContext>)
        ensures
            match r {
                Some(c) => self@.dom().contains(channel_id) && self@[channel_id] == *c,
                None => !self@.dom().contains(channel_id),
            },
    {
        broadcast use vstd::std_specs::hash::group_hash_axioms;

        self.active_channels.get(&channel_id)
    }
}

impl Default for TelegramBridge {
    fn default() -> (r: Self)
        ensures
            r@ == Map::<u128, ChannelContext>::empty(),
    {
        Self::new()
    }
}

// ---------------------------------------------------------------------------
// What each part of a message means
// ---------------------------------------------------------------------------

/// A stretch of a text that an entity marks as a mention mentions the bot where it is the
/// bot's name, in whatever case; elsewhere in the text, and under other types, it does not.
pub proof fn law_mention_is_seen(
    before: Seq<char>,
    name: Seq<char>,
    after: Seq<char>,
    e: MessageEntity,
    target: Seq<char>,
)
    requires
        e.offset == utf16(before).len(),
        e.offset + e.length == utf16(before).len() + utf16(name).len(),
        utf16(before + name + after).len() <= i64::MAX,
    ensures
        mention_at(e, Some(before + name + after), target) == if e.entity_type@ == "mention"@ {
            Some(units_match(utf16(name), utf16(target)))
        } else {
            Some(false)
        },
        mention_at(e, None, target) == Some(false),
{
    lemma_utf16_concat(before, name);
    lemma_utf16_concat(before + name, after);
    let u = utf16(before + name + after);
    assert(u =~= utf16(before) + utf16(name) + utf16(after));
    assert(u.subrange(e.offset as int, e.offset + e.length) =~= utf16(name));
}

proof fn lemma_utf16_concat(a: Seq<char>, b: Seq<char>)
    ensures
        utf16(a + b) == utf16(a) + utf16(b),
    decreases b.len(),
{
    if b.len() == 0 {
        assert(a + b =~= a);
        assert(utf16(a) + utf16(b) =~= utf16(a));
    } else {
        assert((a + b).drop_last() =~= a + b.drop_last());
        lemma_utf16_concat(a, b.drop_last());
        assert(utf16(a + b) =~= utf16(a) + utf16(b));
    }
}

/// One entity that mentions the bot is enough, wherever it stands among the others.
pub proof fn law_one_mention_is_enough(
    before: Seq<MessageEntity>,
    e: MessageEntity,
    after: Seq<MessageEntity>,
    text: Option<Seq<char>>,
    target: Seq<char>,
)
    requires
        forall|i: int|
            0 <= i < before.len() ==> mention_at(#[trigger] before[i], text, target) == Some(false),
        mention_at(e, text, target) == Some(true),
    ensures
        mentioned(before + seq![e] + after, text, target) == Some(true),
        mentioned(before, text, target) == Some(false),
    decreases before.len(),
{
    let all = before + seq![e] + after;
    if before.len() == 0 {
        assert(all[0] == e);
    } else {
        assert(all[0] == before[0]);
        let fewer = before.drop_first();
        assert forall|i: int| 0 <= i < fewer.len() implies mention_at(
            #[trigger] fewer[i],
            text,
            target,
        ) == Some(false) by {
            assert(fewer[i] == before[i + 1]);
        }
        assert(all.drop_first() =~= fewer + seq![e] + after);
        law_one_mention_is_enough(fewer, e, after, text, target);
    }
}

/// The bot is mentioned by its name behind an `@`, in a text or in a caption, and a message
/// replies to the bot where it replies to a message that the bot sent.
pub proof fn law_bot_is_spoken_to(msg: Message, bot: Seq<char>)
    ensures
        msg.entities matches Some(v) && mentioned(v@, opt_string(msg.text), "@"@ + bot) == Some(
            true,
        ) ==> mentions_bot(msg, bot) == Some(true),
        msg.entities is None && (msg.caption_entities matches Some(v) && mentioned(
            v@,
            opt_string(msg.caption),
            "@"@ + bot,
        ) == Some(true)) ==> mentions_bot(msg, bot) == Some(true),
        msg.entities is None && msg.caption_entities is None ==> mentions_bot(msg, bot) == Some(
            false,
        ),
        replies_to_bot(msg, bot) == (msg.reply_to_message matches Some(r) && r.from matches Some(u)
            && u.username matches Some(name) && same_ignoring_case(name@, bot)),
{
}

/// Which chats may use a channel, and what a channel answers where the bot is not mentioned.
pub proof fn law_chats_and_triggers(channel: TelegramChannel, msg: Message, bot: Seq<char>)
    ensures
        is_allowed_chat(channel, msg.chat.id) == (channel.allowed_chat_ids@.len() == 0 || exists|i: int|
            0 <= i < channel.allowed_chat_ids@.len() && #[trigger] channel.allowed_chat_ids@[i]
                == msg.chat.id),
{
}

/// The name of the bot is taken off the beginning of a message, and nothing else but whitespace
/// at the ends.
pub proof fn law_mention_is_taken_off(
    a: Seq<char>,
    name: Seq<char>,
    b: Seq<char>,
    t: Seq<char>,
    c: Seq<char>,
    bot: Seq<char>,
)
    requires
        forall|i: int| 0 <= i < a.len() ==> is_whitespace(#[trigger] a[i]),
        forall|i: int| 0 <= i < b.len() ==> is_whitespace(#[trigger] b[i]),
        forall|i: int| 0 <= i < c.len() ==> is_whitespace(#[trigger] c[i]),
        t.len() > 0 && !is_whitespace(t[0]) && !is_whitespace(t.last()),
        same_ignoring_case(name, "@"@ + bot),
    ensures
        without_mention(a + name + b + t + c, bot) == t,
        (forall|rest: Seq<char>, n: Seq<char>|
            same_ignoring_case(n, "@"@ + bot) ==> t != #[trigger] (n + rest)) ==> without_mention(
            a + t + c,
            bot,
        ) == t,
{
    let ws = CharSet::Whitespace;
    reveal_strlit("@");
    law_case_of_letters(name, "@"@ + bot);
    assert(("@"@ + bot)[0] == '@');
    assert(name.len() > 0 && name[0] == '@');
    let line = name + b + t;
    assert(line.last() == t.last() && line[0] == '@');
    law_trim_keeps_the_middle(a, line, c, ws);
    assert(a + line + c =~= a + name + b + t + c);
    assert(line.take(name.len() as int) =~= name);
    assert(line.skip(name.len() as int) =~= b + t);
    let none = Seq::<char>::empty();
    law_trim_keeps_the_middle(b, t, none, ws);
    assert(b + t + none =~= b + t);
    law_trim_keeps_the_middle(a, t, c, ws);
    let mention = "@"@ + bot;
    if mention.len() <= t.len() && same_ignoring_case(t.take(mention.len() as int), mention) {
        let n = t.take(mention.len() as int);
        assert(t =~= n + t.skip(mention.len() as int));
    }
}

/// What a message says: its text, else its caption.
pub proof fn law_what_a_message_says(msg: Message)
    ensures
        msg.text matches Some(t) ==> said(msg) == t@,
        msg.text is None ==> (msg.caption matches Some(c) ==> said(msg) == c@),
        msg.text is None && msg.caption is None ==> said(msg).len() == 0,
        is_empty_message(msg) == (said(msg).len() == 0 && msg.document is None && (msg.photo is None
            || msg.photo->0@.len() == 0) && msg.voice is None && msg.audio is None && msg.video
            is None),
{
}

/// The file of a message: a document before a photo, the largest photo, then voice, audio and
/// video; under the name and of the type that it has, or that its kind has.
pub proof fn law_file_of_a_message(msg: Message)
    ensures
        ({
            let or = |o: Option<String>, d: Seq<char>|
                match o {
                    Some(s) => s@,
                    None => d,
                };
            let start = |s: Seq<char>|
                if s.len() <= 8 {
                    s
                } else {
                    s.take(8)
                };
            let no_photo = msg.photo is None || msg.photo->0@.len() == 0;
            &&& msg.document matches Some(d) ==> file_of(msg) == Some(
                (
                    d.file_id@,
                    or(d.file_name, "document_"@ + start(d.file_id@)),
                    or(d.mime_type, "application/octet-stream"@),
                ),
            )
            &&& msg.document is None && !no_photo ==> file_of(msg) == Some(
                (
                    msg.photo->0@.last().file_id@,
                    "photo_"@ + start(msg.photo->0@.last().file_id@) + ".jpg"@,
                    "image/jpeg"@,
                ),
            )
            &&& msg.document is None && no_photo ==> (msg.voice matches Some(f) ==> file_of(msg)
                == Some(
                (f.file_id@, or(f.file_name, "voice_message.ogg"@), or(f.mime_type, "audio/ogg"@)),
            ))
            &&& msg.document is None && no_photo && msg.voice is None ==> (msg.audio matches Some(f)
                ==> file_of(msg) == Some(
                (f.file_id@, or(f.file_name, "audio.mp3"@), or(f.mime_type, "audio/mpeg"@)),
            ))
            &&& msg.document is None && no_photo && msg.voice is None && msg.audio is None ==> (
            msg.video matches Some(f) ==> file_of(msg) == Some(
                (f.file_id@, or(f.file_name, "video.mp4"@), or(f.mime_type, "video/mp4"@)),
            ))
        }),
{
}

/// What a sender is called: the name behind an `@`, else the first and last name.
pub proof fn law_name_of_a_sender(msg: Message)
    ensures
        msg.from is None ==> sender_of(msg) == "Unknown"@,
        msg.from matches Some(u) ==> {
            &&& u.username matches Some(n) ==> sender_of(msg) == "@"@ + n@
            &&& u.username is None ==> (u.last_name matches Some(l) ==> sender_of(msg)
                == u.first_name@ + " "@ + l@)
            &&& u.username is None && u.last_name is None ==> sender_of(msg) == u.first_name@
        },
{
}

/// Where a message goes.
pub proof fn law_where_a_message_goes(channel: TelegramChannel)
    ensures
        !channel.auto_create_missions ==> target_of(channel, true) == Target::Mission(
            channel.mission_id,
        ) && target_of(channel, false) == Target::Mission(channel.mission_id),
        channel.auto_create_missions ==> target_of(channel, true) == Target::FindOrCreate
            && target_of(channel, false) == Target::FindOnly,
{
}

/// A message that is heeded is handed on as it is: who said it, what was said but for the
/// bot's name, its file, and whether it is to be answered.
pub proof fn law_message_is_handed_on(
    channel: TelegramChannel,
    msg: Message,
    bot: Seq<char>,
    r: Option<Incoming>,
)
    requires
        plans(channel, msg, bot, r),
        said(msg).len() > 0 || file_of(msg) is Some,
        channel.allowed_chat_ids@.len() == 0 || channel.allowed_chat_ids@.contains(msg.chat.id),
    ensures
        r matches Some(i) && {
            &&& i.sender@ == sender_of(msg)
            &&& i.text@ == without_mention(said(msg), bot)
            &&& (file_of(msg) matches Some(f) ==> i.file matches Some(g) && g.0@ == f.0 && g.1@
                == f.1 && g.2@ == f.2)
            &&& (file_of(msg) is None ==> i.file is None)
            &&& Some(i.respond) == answers(channel, msg, bot)
        },
{
}

/// A mission is told who speaks in which chat, the instructions of the channel, what became
/// of a file, and all that was said.
pub proof fn law_mission_is_told_all(
    sender: Seq<char>,
    chat_id: int,
    instructions: Option<Seq<char>>,
    file_note: Option<Seq<char>>,
    text: Seq<char>,
)
    ensures
        ({
            let parts = content_parts(sender, chat_id, instructions, file_note, text);
            &&& parts.len() == 1 + (if instructions is Some {
                1int
            } else {
                0
            }) + (if file_note is Some {
                1int
            } else {
                0
            }) + (if text.len() > 0 {
                1int
            } else {
                0
            })
            &&& parts[0] == "[Telegram from "@ + sender + " in chat "@ + signed_decimal(chat_id)
                + "]"@
            &&& instructions matches Some(i) ==> parts[1] == "[Instructions: "@ + i + "]"@
            &&& text.len() > 0 ==> parts.last() == text
            &&& file_note matches Some(f) ==> parts[parts.len() - (if text.len() > 0 {
                2int
            } else {
                1
            })] == f
        }),
        text.len() > 0 ==> has_suffix(
            joined(content_parts(sender, chat_id, instructions, file_note, text), " "@),
            text,
        ),
{
    let parts = content_parts(sender, chat_id, instructions, file_note, text);
    if text.len() > 0 {
        let j = joined(parts, " "@);
        if parts.len() == 1 {
            assert(j.skip(0) =~= j);
        } else {
            let a = joined(parts.drop_last(), " "@) + " "@;
            assert(j == a + text);
            law_parts_of_a_text(a, text, Seq::empty());
        }
    }
}

/// What is noted of a file.
pub proof fn law_note_on_a_file(name: Seq<char>, mime: Seq<char>, path: Seq<char>)
    ensures
        saved_note(name, mime, path) == "[Attached file: "@ + name + " ("@ + mime
            + "), saved to: "@ + path + "]"@,
        failed_note(name, mime, path) == "[Attached file: "@ + name + " ("@ + mime
            + ") \u{2014} download failed: "@ + path + "]"@,
        has_infix(saved_note(name, mime, path), path),
        has_infix(failed_note(name, mime, path), path),
{
    let a = "[Attached file: "@ + name + " ("@ + mime + "), saved to: "@;
    law_parts_of_a_text(a, path, "]"@);
    let b = "[Attached file: "@ + name + " ("@ + mime + ") \u{2014} download failed: "@;
    law_parts_of_a_text(b, path, "]"@);
}

/// The name of an agent is what stands before a parenthesis.
pub proof fn law_bare_name_of_an_agent(name: Seq<char>, space: Seq<char>, rest: Seq<char>)
    requires
        name.len() > 0 && !is_whitespace(name[0]) && !is_whitespace(name.last()),
        forall|i: int| 0 <= i < name.len() ==> #[trigger] name[i] != '(',
        forall|i: int| 0 <= i < space.len() ==> is_whitespace(#[trigger] space[i]),
    ensures
        bare_agent(name + space + seq!['('] + rest) == name,
        bare_agent(name + space) == name,
{
    let front = name + space;
    let none = Seq::<char>::empty();
    assert forall|i: int| 0 <= i < front.len() implies #[trigger] front[i] != '(' by {
        if i < name.len() {
            assert(front[i] == name[i]);
        } else {
            assert(front[i] == space[i - name.len()]);
        }
    }
    law_text_before_a_character(front, '(', rest);
    law_trim_keeps_the_middle(none, name, space, CharSet::Whitespace);
    assert(none + name + space =~= front);
}

/// A message is sent to its chat, as HTML, as a reply where there is something to reply to.
pub proof fn law_message_is_sent(chat_id: int, html: Seq<char>, reply_to: Option<i64>)
    ensures
        ({
            let b = send_json(chat_id, html, reply_to);
            &&& b.get("chat_id"@) == Some(JsonView::Number(NumberView::Int(chat_id)))
            &&& b.get("text"@) == Some(JsonView::Text(html))
            &&& b.get("parse_mode"@) == Some(JsonView::Text("HTML"@))
            &&& b.get("reply_to_message_id"@) == match reply_to {
                Some(id) => Some(JsonView::Number(NumberView::Int(id as int))),
                None => None,
            }
        }),
{
    reveal_strlit("chat_id");
    reveal_strlit("text");
    reveal_strlit("reply_to_message_id");
    reveal_strlit("parse_mode");
    assert("chat_id"@.len() == 7 &&
        "text"@.len() == 4 &&
        "reply_to_message_id"@.len() == 19 &&
        "parse_mode"@.len() == 10);
    let m = send_json(chat_id, html, reply_to)->Object_0;
    law_first_member_is_found(m, 0);
    law_first_member_is_found(m, 1);
    law_first_member_is_found(m, 2);
    if reply_to is Some {
        law_first_member_is_found(m, 3);
    } else {
        law_found_member_is_there(m, "reply_to_message_id"@);
        if let Some(v) = lookup(m, "reply_to_message_id"@) {
            let i = choose|i: int|
                0 <= i < m.len() && #[trigger] m[i] == ("reply_to_message_id"@, v);
            assert(false);
        }
    }
}

/// An edit names its chat, its message and the new text.
pub proof fn law_message_is_edited(chat_id: int, message_id: int, html: Seq<char>)
    ensures
        ({
            let b = edit_json(chat_id, message_id, html);
            &&& b.get("chat_id"@) == Some(JsonView::Number(NumberView::Int(chat_id)))
            &&& b.get("message_id"@) == Some(JsonView::Number(NumberView::Int(message_id)))
            &&& b.get("text"@) == Some(JsonView::Text(html))
            &&& b.get("parse_mode"@) == Some(JsonView::Text("HTML"@))
        }),
{
    reveal_strlit("chat_id");
    reveal_strlit("message_id");
    reveal_strlit("text");
    reveal_strlit("parse_mode");
    assert("chat_id"@.len() == 7 &&
        "message_id"@.len() == 10 &&
        "text"@.len() == 4 &&
        "parse_mode"@.len() == 10 &&
        "message_id"@[0] == 'm' &&
        "parse_mode"@[0] == 'p');
    let m = edit_json(chat_id, message_id, html)->Object_0;
    law_first_member_is_found(m, 0);
    law_first_member_is_found(m, 1);
    law_first_member_is_found(m, 2);
    law_first_member_is_found(m, 3);
}

/// A webhook is registered at its address, with its secret, for messages alone.
pub proof fn law_webhook_is_registered(url: Seq<char>, secret: Option<Seq<char>>)
    ensures
        ({
            let b = set_webhook_json(url, secret);
            &&& b.get("url"@) == Some(JsonView::Text(url))
            &&& b.get("drop_pending_updates"@) == Some(JsonView::Bool(true))
            &&& b.get("allowed_updates"@) == Some(
                JsonView::Array(seq![JsonView::Text("message"@)]),
            )
            &&& b.get("secret_token"@) == match secret {
                Some(s) => Some(JsonView::Text(s)),
                None => None,
            }
        }),
{
    reveal_strlit("allowed_updates");
    reveal_strlit("drop_pending_updates");
    reveal_strlit("secret_token");
    reveal_strlit("url");
    assert("allowed_updates"@.len() == 15 &&
        "drop_pending_updates"@.len() == 20 &&
        "secret_token"@.len() == 12 &&
        "url"@.len() == 3);
    let m = set_webhook_json(url, secret)->Object_0;
    law_first_member_is_found(m, 0);
    law_first_member_is_found(m, 1);
    law_first_member_is_found(m, 2);
    if secret is Some {
        law_first_member_is_found(m, 3);
    } else {
        law_found_member_is_there(m, "secret_token"@);
        if let Some(v) = lookup(m, "secret_token"@) {
            let i = choose|i: int| 0 <= i < m.len() && #[trigger] m[i] == ("secret_token"@, v);
            assert(false);
        }
    }
}

/// The name of a file loses only what separates paths, character by character; one that is to
/// be sent loses the dots in front as well.
pub proof fn law_name_of_a_file_is_kept(name: Seq<char>, dots: Seq<char>, i: int)
    requires
        0 <= i < name.len(),
        forall|k: int| 0 <= k < dots.len() ==> #[trigger] dots[k] == '.',
    ensures
        safe_name(name).len() == name.len(),
        safe_name(name)[i] == if name[i] == '/' || name[i] == '\\' || name[i] == '\0' {
            '_'
        } else {
            name[i]
        },
        name[0] != '.' ==> outbound_name(dots + name) == safe_name(name),
        outbound_name(dots) == "file"@,
{
    let s = safe_name(name);
    let d = safe_name(dots);
    let both = safe_name(dots + name);
    assert(d =~= dots);
    assert(both =~= dots + s);
    if name[0] != '.' {
        law_trim_front_cuts_the_front(dots, s, CharSet::One('.'));
    }
    let none = Seq::<char>::empty();
    law_trim_front_cuts_the_front(dots, none, CharSet::One('.'));
    assert(dots + none =~= dots);
}

/// Where a file lies, and where it may lie to be sent.
pub proof fn law_files_on_disk(path: Seq<char>, dir: Seq<char>, rest: Seq<char>)
    ensures
        path_of("file://"@ + path) == path,
        !has_prefix(path, "file://"@) ==> path_of(path) == path,
        lies_under(dir, dir),
        lies_under(dir + "/"@ + rest, dir),
        lies_under(path, dir) ==> path == dir || exists|r: Seq<char>| path == #[trigger] (dir + "/"@
            + r),
{
    law_parts_of_a_text(Seq::empty(), "file://"@, path);
    law_parts_of_a_text(Seq::empty(), dir + "/"@, rest);
    law_found_parts_are_there(path, dir + "/"@);
    if lies_under(path, dir) && path != dir {
        let b = choose|b: Seq<char>| path == #[trigger] (dir + "/"@ + b);
        assert(path == dir + "/"@ + b);
    }
}

/// Pictures are sent as photos, but for drawings.
pub proof fn law_photos(kind: Seq<char>, a: Seq<char>, b: Seq<char>)
    ensures
        is_photo(kind) == (has_prefix(kind, "image/"@) && !has_infix(kind, "svg"@)),
        !is_photo(a + "svg"@ + b),
        MAX_FILE_SIZE == 50 * 1024 * 1024,
{
    law_parts_of_a_text(a, "svg"@, b);
}

/// The addresses and errors of the bot's API.
pub proof fn law_bot_api(token: Seq<char>, method: Seq<char>, status: Seq<char>, body: Seq<char>)
    ensures
        bot_url(token) == "https://api.telegram.org/bot"@ + token,
        http_error(method, status, body) == method + " API error "@ + status + ": "@ + body,
{
}

/// Channels that are set up alike agree in everything, and a channel is set up like itself.
pub proof fn law_channels_that_are_alike(a: TelegramChannel, b: TelegramChannel)
    ensures
        same_channel(a, a),
        same_channel(a, b) ==> a.id == b.id && a.mission_id == b.mission_id && a.bot_token
            == b.bot_token && a.bot_username == b.bot_username && a.webhook_secret
            == b.webhook_secret && a.allowed_chat_ids@ == b.allowed_chat_ids@ && a.trigger_mode
            == b.trigger_mode && a.instructions == b.instructions && a.auto_create_missions
            == b.auto_create_missions && a.default_workspace_id == b.default_workspace_id
            && a.default_agent == b.default_agent && a.default_model_override
            == b.default_model_override && a.default_model_effort == b.default_model_effort
            && a.default_backend == b.default_backend && a.default_config_profile
            == b.default_config_profile,
{
}

} // verus!
