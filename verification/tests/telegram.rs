use sandboxed::json_text::print_json;
use sandboxed::telegram::{
    after_lookup, after_mapping, answers_message, api_outcome, bare_agent_name, bot_base_url,
    bot_username_reply, chat_mission_request, check_download_size, check_local_path,
    check_upload_size, download_url, edit_message_body, edit_refused, extract_file_info,
    file_annotation, file_path_reply, http_failure, is_remote_file, local_file_path,
    message_content, message_is_empty, method_url, no_mission_text, outbound_file_name, plan_webhook_message,
    resolve_bot_username, safe_file_name, send_file_endpoint, send_message_body, sender_name,
    sent_message_id, set_webhook_body, should_process_message, strip_bot_mention, typing_body,
    webhook_failure, webhook_url, Chat, ChannelContext, MappingStep, Message, MessageEntity,
    PhotoSize, Target, TelegramBridge, TelegramChannel, TelegramDocument, TelegramFile,
    TelegramTriggerMode, User, MAX_FILE_SIZE,
};
use sandboxed::telegram_html::{
    char_boundary_at, edit_and_overflow, markdown_to_telegram_html, render_telegram_chunk, split_message,
    truncate_for_telegram,
};

#[test]
fn truncate_for_telegram_preserves_valid_html_boundaries() {
    let text = "**bold** ".repeat(700);
    let rendered = truncate_for_telegram(&text);

    assert!(rendered.html.chars().count() <= 4096);
    assert!(rendered.source_boundary < text.len());
    assert!(
        rendered.html.ends_with("...</b>...")
            || rendered.html.ends_with("</b>...")
            || rendered.html.ends_with("...")
    );
    assert!(!rendered.html.contains("&lt;b&gt;"));
}

#[test]
fn render_chunk_tracks_consumed_source_before_html_limit() {
    let text = "[label](https://example.com) ".repeat(300);
    let rendered = render_telegram_chunk(&text, 4096, None);
    let full_html = markdown_to_telegram_html(&text);

    assert!(rendered.html.chars().count() <= 4096);
    assert!(rendered.source_boundary < text.len());
    assert!(full_html.chars().count() > 4096);
    assert_eq!(
        rendered.html,
        markdown_to_telegram_html(&text[..rendered.source_boundary])
    );
}

#[test]
fn markdown_becomes_html() {
    let html = |s: &str| markdown_to_telegram_html(s);
    assert_eq!(html("plain"), "plain");
    assert_eq!(html("a < b & c > d"), "a &lt; b &amp; c &gt; d");
    assert_eq!(html("**bold** and *italic*"), "<b>bold</b> and <i>italic</i>");
    assert_eq!(html("`code`"), "<code>code</code>");
    assert_eq!(html("[label](https://example.com)"), "<a href=\"https://example.com\">label</a>");
    assert!(html("# Title\ntext").contains("<b>Title</b>"));
    assert!(html("```\nlet x = 1;\n```").contains("<pre>"));
}

#[test]
fn boundaries_are_counted_in_bytes() {
    let ends: Vec<usize> = (0..5).map(|n| char_boundary_at("aé\u{1f600}b", n)).collect();
    assert_eq!(ends, [0, 1, 3, 7, 8]);
    assert_eq!(char_boundary_at("aé", usize::MAX), 3);
    assert_eq!(char_boundary_at("", 1), 0);
}

#[test]
fn lines_are_rendered_apart() {
    let html = |s: &str| markdown_to_telegram_html(s);
    for (a, b) in [("# T & <x>", "# U"), ("**b** [l](u)", "- *i*"), ("issue #1", "`c`")] {
        assert_eq!(html(&format!("{}\n{}", a, b)), format!("{}\n{}", html(a), html(b)));
    }
    assert_eq!(html("issue #1 & <2>\n a # b"), "issue #1 &amp; &lt;2&gt;\n a # b");
    assert_eq!(html("**open\n& more"), "<b>open\n&amp; more</b>");
    assert_eq!(html("`a & b` **<** [&](>)"), "<code>a &amp; b</code> <b>&lt;</b> <a href=\"&gt;\">&amp;</a>");
}

#[test]
fn long_text_is_sent_in_several_messages() {
    let text = "é".repeat(5000);
    let parts = split_message(&text);
    assert_eq!(parts.len(), 2);
    assert_eq!(parts[0].chars().count(), 4096);
    assert_eq!(parts.concat(), text);
    assert!(split_message("").is_empty());
    assert_eq!(split_message("short"), ["short"]);

    let first = edit_and_overflow(&text);
    assert_eq!(first.html.chars().count(), 4096);
    assert!(first.html.ends_with("é..."));
    assert_eq!(first.rest.concat().chars().count(), 5000 - 4093);
    let first = edit_and_overflow("short");
    assert_eq!(first.html, "short");
    assert!(first.rest.is_empty());
}

#[test]
fn a_suffix_longer_than_the_limit_leaves_no_room() {
    let chunk = render_telegram_chunk("abcdef", 2, Some("..."));
    assert_eq!(chunk.html, "...");
    assert_eq!(chunk.source_boundary, 0);
    let chunk = render_telegram_chunk("abcdef", 4, Some("..."));
    assert_eq!(chunk.html, "a...");
    assert_eq!(chunk.source_boundary, 1);
}

fn channel(trigger_mode: TelegramTriggerMode) -> TelegramChannel {
    TelegramChannel {
        id: 0x1234,
        mission_id: 7,
        bot_token: "1:A".to_string(),
        bot_username: None,
        webhook_secret: None,
        allowed_chat_ids: Vec::new(),
        trigger_mode,
        instructions: None,
        auto_create_missions: false,
        default_workspace_id: Some(3),
        default_agent: Some("Sisyphus (Ultraworker)".to_string()),
        default_model_override: Some("m".to_string()),
        default_model_effort: None,
        default_backend: None,
        default_config_profile: None,
    }
}

fn user(first: &str, last: Option<&str>, username: Option<&str>) -> User {
    User {
        id: 1,
        first_name: first.to_string(),
        last_name: last.map(String::from),
        username: username.map(String::from),
    }
}

fn message(chat_type: &str, text: Option<&str>) -> Message {
    Message {
        message_id: 5,
        chat: Chat {
            id: -100,
            chat_type: chat_type.to_string(),
        },
        from: None,
        text: text.map(String::from),
        caption: None,
        reply_to_message: None,
        entities: None,
        caption_entities: None,
        document: None,
        photo: None,
        voice: None,
        audio: None,
        video: None,
    }
}

fn entity(entity_type: &str, offset: i64, length: i64) -> Option<Vec<MessageEntity>> {
    Some(vec![MessageEntity {
        entity_type: entity_type.to_string(),
        offset,
        length,
    }])
}

const MODES: [TelegramTriggerMode; 5] = [
    TelegramTriggerMode::MentionOrDm,
    TelegramTriggerMode::BotMention,
    TelegramTriggerMode::Reply,
    TelegramTriggerMode::DirectMessage,
    TelegramTriggerMode::Always,
];

fn answered(msg: &Message) -> [bool; 5] {
    MODES.map(|m| should_process_message(&channel(m), msg, "my_bot"))
}

#[test]
fn trigger_modes_pick_messages() {
    let plain = message("group", Some("hello"));
    assert_eq!(answered(&plain), [false, false, false, false, true]);
    let private = message("private", Some("hello"));
    assert_eq!(answered(&private), [true, false, false, true, true]);
    let mut mention = message("group", Some("hi @My_Bot"));
    mention.entities = entity("mention", 3, 7);
    assert_eq!(answered(&mention), [true, true, false, false, true]);
    mention.entities = entity("hashtag", 3, 7);
    assert_eq!(answered(&mention), [false, false, false, false, true]);
    mention.entities = entity("mention", 3, 70);
    assert_eq!(answered(&mention), [false, false, false, false, true]);
    let mut caption = message("group", None);
    caption.caption = Some("𝄞 @my_bot".to_string());
    // Offsets count UTF-16 code units: the clef takes two.
    caption.caption_entities = entity("mention", 3, 7);
    assert_eq!(answered(&caption), [true, true, false, false, true]);
    let mut reply = message("group", Some("yes"));
    let mut to = message("group", Some("ok?"));
    to.from = Some(user("Bot", None, Some("MY_BOT")));
    reply.reply_to_message = Some(Box::new(to));
    assert_eq!(answered(&reply), [true, false, true, false, true]);
}

#[test]
fn chats_can_be_restricted() {
    let mut c = channel(TelegramTriggerMode::Always);
    c.allowed_chat_ids = vec![1, 2];
    assert!(!should_process_message(&c, &message("private", Some("x")), "my_bot"));
    assert!(plan_webhook_message(&c, &message("private", Some("x")), "my_bot").is_none());
    c.allowed_chat_ids.push(-100);
    assert!(should_process_message(&c, &message("private", Some("x")), "my_bot"));
    assert!(plan_webhook_message(&c, &message("private", Some("x")), "my_bot").unwrap().respond);
    c.trigger_mode = TelegramTriggerMode::BotMention;
    assert!(!plan_webhook_message(&c, &message("group", Some("x")), "my_bot").unwrap().respond);
}

#[test]
fn mentions_outside_the_text_are_reported() {
    let mut msg = message("group", Some("hi"));
    msg.entities = entity("mention", 2, -1);
    assert_eq!(answers_message(&channel(TelegramTriggerMode::Always), &msg, "b"), None);
}

#[test]
fn the_name_of_the_bot_is_cut_off() {
    assert_eq!(strip_bot_mention("  @MY_bot  do it ", "my_bot"), "do it");
    assert_eq!(strip_bot_mention("please @my_bot", "my_bot"), "please @my_bot");
    assert_eq!(strip_bot_mention("é", "my_bot"), "é");
}

#[test]
fn files_are_found_in_order() {
    let file = |id: &str| TelegramFile {
        file_id: id.to_string(),
        file_name: None,
        mime_type: None,
        file_size: None,
    };
    let triple = |a: &str, b: &str, c: &str| Some((a.to_string(), b.to_string(), c.to_string()));
    let mut msg = message("private", None);
    assert_eq!(extract_file_info(&msg), None);
    msg.video = Some(file("v"));
    assert_eq!(extract_file_info(&msg), triple("v", "video.mp4", "video/mp4"));
    msg.audio = Some(file("a"));
    assert_eq!(extract_file_info(&msg), triple("a", "audio.mp3", "audio/mpeg"));
    msg.voice = Some(file("w"));
    assert_eq!(extract_file_info(&msg), triple("w", "voice_message.ogg", "audio/ogg"));
    let size = |id: &str| PhotoSize {
        file_id: id.to_string(),
        width: 1,
        height: 1,
        file_size: None,
    };
    msg.photo = Some(Vec::new());
    assert_eq!(extract_file_info(&msg), triple("w", "voice_message.ogg", "audio/ogg"));
    msg.photo = Some(vec![size("small"), size("0123456789")]);
    assert_eq!(extract_file_info(&msg), triple("0123456789", "photo_01234567.jpg", "image/jpeg"));
    msg.document = Some(TelegramDocument {
        file_id: "abc".to_string(),
        file_name: None,
        mime_type: None,
        file_size: None,
    });
    assert_eq!(
        extract_file_info(&msg),
        triple("abc", "document_abc", "application/octet-stream")
    );
}

#[test]
fn senders_go_by_their_best_name() {
    let mut msg = message("private", None);
    assert_eq!(sender_name(&msg), "Unknown");
    msg.from = Some(user("Ada", None, None));
    assert_eq!(sender_name(&msg), "Ada");
    msg.from = Some(user("Ada", Some("L"), None));
    assert_eq!(sender_name(&msg), "Ada L");
    msg.from = Some(user("Ada", Some("L"), Some("al")));
    assert_eq!(sender_name(&msg), "@al");
}

#[test]
fn messages_go_to_a_mission() {
    let mut c = channel(TelegramTriggerMode::DirectMessage);
    assert!(plan_webhook_message(&c, &message("private", None), "my_bot").is_none());
    assert!(message_is_empty(&message("private", Some(""))));
    assert!(!message_is_empty(&message("private", Some(" "))));
    let p = plan_webhook_message(&c, &message("private", Some("@my_bot go")), "my_bot").unwrap();
    assert!(p.respond);
    assert_eq!(p.text, "go");
    assert_eq!(p.sender, "Unknown");
    assert_eq!(p.file, None);
    assert_eq!(p.target, Target::Mission(7));
    c.auto_create_missions = true;
    let p = plan_webhook_message(&c, &message("private", Some("x")), "my_bot").unwrap();
    assert_eq!(p.target, Target::FindOrCreate);
    let p = plan_webhook_message(&c, &message("group", Some("x")), "my_bot").unwrap();
    assert!(!p.respond);
    assert_eq!(p.target, Target::FindOnly);
    let mut captioned = message("private", None);
    captioned.caption = Some("see".to_string());
    let p = plan_webhook_message(&c, &captioned, "my_bot").unwrap();
    assert_eq!(p.text, "see");
}

#[test]
fn missions_are_told_where_a_message_comes_from() {
    let note = file_annotation("a.txt", "text/plain", Ok("/tmp/a.txt".to_string()));
    assert_eq!(note, "[Attached file: a.txt (text/plain), saved to: /tmp/a.txt]");
    let failed = file_annotation("a.txt", "text/plain", Err("gone".to_string()));
    assert_eq!(failed, "[Attached file: a.txt (text/plain) — download failed: gone]");
    assert_eq!(
        message_content("@al", -100, &Some("Be brief.".to_string()), &Some(note), "hello"),
        "[Telegram from @al in chat -100] [Instructions: Be brief.] [Attached file: a.txt \
         (text/plain), saved to: /tmp/a.txt] hello"
    );
    assert_eq!(message_content("@al", 1, &None, &None, ""), "[Telegram from @al in chat 1]");
}

#[test]
fn chats_get_missions_of_their_own() {
    let r = chat_mission_request(&channel(TelegramTriggerMode::Always), "@al");
    assert_eq!(r.title.as_deref(), Some("Telegram: @al"));
    assert_eq!(r.agent.as_deref(), Some("sisyphus"));
    assert_eq!(r.workspace_id, Some(3));
    assert_eq!(r.model_override.as_deref(), Some("m"));
    assert_eq!(r.backend, None);
    assert_eq!(bare_agent_name("  Plain Name "), "Plain Name");
    assert_eq!(after_mapping(9, Ok(())), MappingStep::Use(9));
    let taken = "UNIQUE constraint failed: x".to_string();
    assert_eq!(after_mapping(9, Err(taken)), MappingStep::LookUp);
    assert_eq!(after_mapping(9, Err("disk full".to_string())), MappingStep::GiveUp);
    assert_eq!(after_lookup(9, Some(4)), 4);
    assert_eq!(after_lookup(9, None), 9);
    assert!(no_mission_text().starts_with("Sorry"));
}

#[test]
fn addresses_of_the_bot_api() {
    let base = bot_base_url("1:A");
    assert_eq!(base, "https://api.telegram.org/bot1:A");
    assert_eq!(method_url(&base, "getMe"), "https://api.telegram.org/bot1:A/getMe");
    assert_eq!(download_url("1:A", "p/q"), "https://api.telegram.org/file/bot1:A/p/q");
    assert_eq!(
        webhook_url("https://host//", 0x1234),
        "https://host/api/telegram/webhook/00000000-0000-0000-0000-000000001234"
    );
    assert_eq!(
        webhook_failure(0x1234, "no"),
        "Failed to set Telegram webhook for channel 00000000-0000-0000-0000-000000001234: no"
    );
}

#[test]
fn bodies_of_the_bot_api() {
    let flat = |j| print_json(&j).split_whitespace().collect::<Vec<_>>().join(" ");
    assert_eq!(
        flat(set_webhook_body("u", &Some("s".to_string()))),
        "{ \"allowed_updates\": [ \"message\" ], \"drop_pending_updates\": true, \
         \"secret_token\": \"s\", \"url\": \"u\" }"
    );
    assert_eq!(flat(typing_body(-5)), "{ \"action\": \"typing\", \"chat_id\": -5 }");
    let sent = send_message_body(5, "**a**", Some(9));
    assert_eq!(sent.get_str("text"), Some("<b>a</b>"));
    assert_eq!(sent.get_str("parse_mode"), Some("HTML"));
    assert_eq!(sent.get("reply_to_message_id").and_then(|v| v.as_i64()), Some(9));
    assert!(send_message_body(5, "a", None).get("reply_to_message_id").is_none());
    let edit = edit_message_body(5, 6, "<b>a</b>").unwrap();
    assert_eq!(edit.get("message_id").and_then(|v| v.as_i64()), Some(6));
    assert!(edit_message_body(5, 6, "").is_none());
}

#[test]
fn replies_of_the_bot_api() {
    assert_eq!(api_outcome("setWebhook", true, None), Ok(()));
    assert_eq!(
        api_outcome("setWebhook", false, Some("bad".to_string())),
        Err("setWebhook API error: bad".to_string())
    );
    assert_eq!(bot_username_reply(Some("b".to_string())), Ok("b".to_string()));
    assert_eq!(bot_username_reply(None), Err("Bot has no username".to_string()));
    assert_eq!(sent_message_id(Some(1)), Ok(1));
    assert_eq!(sent_message_id(None), Err("sendMessage returned no result".to_string()));
    assert_eq!(file_path_reply(None), Err("getFile returned no file_path".to_string()));
    assert_eq!(edit_refused("400", "Bad Request: message is not modified"), Ok(()));
    assert_eq!(
        edit_refused("400", "nope"),
        Err("editMessageText API error 400: nope".to_string())
    );
    assert_eq!(http_failure("sendPhoto", "413", "big"), "sendPhoto API error 413: big");
    let mut c = channel(TelegramTriggerMode::Always);
    assert_eq!(resolve_bot_username(&c, None), "");
    assert_eq!(resolve_bot_username(&c, Some("f".to_string())), "f");
    c.bot_username = Some("own".to_string());
    assert_eq!(resolve_bot_username(&c, Some("f".to_string())), "own");
}

#[test]
fn files_of_the_bot_api() {
    assert_eq!(check_download_size(MAX_FILE_SIZE), Ok(()));
    assert_eq!(
        check_download_size(MAX_FILE_SIZE + 1),
        Err("File too large: 52428801 bytes (limit: 52428800 bytes)".to_string())
    );
    assert_eq!(
        check_upload_size(MAX_FILE_SIZE + 1),
        Err("File too large: 52428801 bytes (max 52428800)".to_string())
    );
    assert_eq!(safe_file_name("../a\\b\0c"), ".._a_b_c");
    assert_eq!(outbound_file_name("../a"), "_a");
    assert_eq!(outbound_file_name("..."), "file");
    assert!(is_remote_file("https://x/y"));
    assert!(!is_remote_file("ftp://x"));
    assert_eq!(local_file_path("file:///tmp/a"), "/tmp/a");
    assert_eq!(local_file_path("/tmp/a"), "/tmp/a");
    assert_eq!(check_local_path("/tmp/a"), Ok(()));
    assert_eq!(check_local_path("/root/workspaces/m/a"), Ok(()));
    assert_eq!(
        check_local_path("/tmpfile"),
        Err("File path outside allowed directories: /tmpfile".to_string())
    );
    let endpoint = |t: &str| send_file_endpoint(t);
    assert_eq!(endpoint("image/png"), ("sendPhoto".to_string(), "photo".to_string()));
    assert_eq!(
        endpoint("image/svg+xml"),
        ("sendDocument".to_string(), "document".to_string())
    );
}

#[test]
fn bridge_keeps_its_channels() {
    let context = |id: u128| {
        let mut c = channel(TelegramTriggerMode::Always);
        c.id = id;
        ChannelContext {
            channel: c,
            bot_username: format!("bot{}", id),
        }
    };
    let mut bridge = TelegramBridge::new();
    assert!(!bridge.is_running(1));
    bridge.start_channel(context(1));
    bridge.start_channel(context(2));
    bridge.start_channel(context(1));
    assert!(bridge.is_running(1));
    assert_eq!(bridge.get_channel_context(2).unwrap().bot_username, "bot2");
    assert_eq!(bridge.stop_channel(2).unwrap().channel.id, 2);
    assert!(bridge.stop_channel(2).is_none());
    bridge.start_channel(context(3));
    let mut stopped: Vec<u128> = bridge.stop_all().into_iter().map(|(id, _)| id).collect();
    stopped.sort();
    assert_eq!(stopped, [1, 3]);
    assert!(!bridge.is_running(1));
}
