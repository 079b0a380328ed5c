use sandboxed::telegram_send::{message_parts, next_send, MessagePart, SendStep};
use sandboxed::telegram_stream::{
    AgentEvent, ResponseStream, SharedFile, StreamAction, StreamInput, EDIT_INTERVAL_NANOS,
    RESPONSE_TIMEOUT_NANOS,
};

fn delta(text: &str, mission: u128) -> StreamInput {
    StreamInput::Event(AgentEvent::TextDelta {
        content: text.to_string(),
        mission_id: Some(mission),
    })
}

fn done(text: &str) -> StreamInput {
    StreamInput::Event(AgentEvent::AssistantMessage {
        content: text.to_string(),
        mission_id: Some(1),
        shared_files: Some(vec![SharedFile {
            name: "a".to_string(),
            url: "/tmp/a".to_string(),
            content_type: "text/plain".to_string(),
        }]),
    })
}

fn error() -> StreamInput {
    StreamInput::Event(AgentEvent::Error {
        message: "boom".to_string(),
        mission_id: Some(1),
    })
}

#[test]
fn an_answer_is_sent_once_and_then_edited() {
    let mut s = ResponseStream::new(1, 5, 0);
    assert!(matches!(s.step(StreamInput::TypingTick, 1), StreamAction::Typing));
    match s.step(delta("He", 1), 2) {
        StreamAction::SendFirst { text, reply_to } => {
            assert_eq!(text, "He");
            assert_eq!(reply_to, Some(5));
        }
        _ => panic!("no first message"),
    }
    // A first message that could not be sent is tried again.
    s.first_sent(None, 3);
    assert!(matches!(s.step(delta("Hel", 1), 4), StreamAction::SendFirst { .. }));
    s.first_sent(Some(77), 10);
    assert!(matches!(s.step(StreamInput::TypingTick, 11), StreamAction::Wait));
    assert!(matches!(s.step(delta("Hell", 1), 12), StreamAction::Wait));
    assert!(matches!(
        s.step(delta("Hello", 1), 9 + EDIT_INTERVAL_NANOS),
        StreamAction::Wait
    ));
    match s.step(delta("Hello *you*", 1), 10 + EDIT_INTERVAL_NANOS) {
        StreamAction::Edit { message_id, html } => {
            assert_eq!(message_id, 77);
            assert_eq!(html, "Hello <i>you</i>");
        }
        _ => panic!("no edit"),
    }
    s.edit_done(20 + EDIT_INTERVAL_NANOS);
    assert!(matches!(
        s.step(delta("Hello you!", 1), 10 + 2 * EDIT_INTERVAL_NANOS),
        StreamAction::Wait
    ));
    match s.step(done(&"x".repeat(5000)), 0) {
        StreamAction::FinishEdit {
            message_id,
            html,
            fallback,
            overflow,
            files,
        } => {
            assert_eq!(message_id, 77);
            assert_eq!(html.len(), 4096);
            let len = |parts: &[MessagePart]| parts.iter().map(|p| p.text.len()).sum::<usize>();
            assert_eq!(len(&fallback), 5000);
            assert_eq!(len(&overflow), 5000 - 4093);
            assert!(fallback.iter().chain(&overflow).all(|p| p.reply_to.is_none()));
            assert_eq!(files.unwrap().len(), 1);
        }
        _ => panic!("not finished"),
    }
}

#[test]
fn an_answer_without_pieces_is_sent_whole() {
    let mut s = ResponseStream::new(1, 5, 0);
    match s.step(done("all"), 1) {
        StreamAction::FinishSend {
            parts,
            files,
        } => {
            assert_eq!(parts.len(), 1);
            assert_eq!((parts[0].text.as_str(), parts[0].reply_to), ("all", Some(5)));
            assert!(files.is_some());
        }
        _ => panic!("not sent"),
    }
}

#[test]
fn only_the_first_part_is_a_reply_and_a_failure_ends_the_sending() {
    let parts = message_parts(&"x".repeat(9000), Some(5));
    let replies: Vec<Option<i64>> = parts.iter().map(|p| p.reply_to).collect();
    assert_eq!(replies, [Some(5), None, None]);
    match next_send(&parts, 0, None) {
        SendStep::Send { text, reply_to } => assert_eq!((text.len(), reply_to), (4096, Some(5))),
        _ => panic!("not sent"),
    }
    match next_send(&parts, 2, None) {
        SendStep::Send { text, reply_to } => assert_eq!((text.len(), reply_to), (808, None)),
        _ => panic!("not sent"),
    }
    assert!(matches!(next_send(&parts, 3, None), SendStep::Done));
    match next_send(&parts, 1, Some("e".to_string())) {
        SendStep::Fail { error } => assert_eq!(error, "e"),
        _ => panic!("not failed"),
    }
    assert!(matches!(next_send(&message_parts("", Some(5)), 0, None), SendStep::Done));
}

#[test]
fn other_events_are_passed_over() {
    let mut s = ResponseStream::new(1, 0, 0);
    assert!(matches!(s.step(delta("x", 2), 1), StreamAction::Wait));
    assert!(matches!(s.step(StreamInput::Lagged, 1), StreamAction::Wait));
    assert!(matches!(
        s.step(StreamInput::Event(AgentEvent::Other), 1),
        StreamAction::Wait
    ));
    let thinking = AgentEvent::Thinking {
        mission_id: Some(1),
    };
    assert!(matches!(s.step(StreamInput::Event(thinking), 1), StreamAction::Typing));
    // There is nothing to reply to.
    match s.step(delta("x", 1), 1) {
        StreamAction::SendFirst { reply_to, .. } => assert_eq!(reply_to, None),
        _ => panic!("no first message"),
    }
    match s.step(StreamInput::Closed, 1) {
        StreamAction::Fail { message } => assert_eq!(message, "Event channel closed"),
        _ => panic!("not failed"),
    }
}

#[test]
fn errors_end_an_answer() {
    let mut s = ResponseStream::new(1, 5, 0);
    match s.step(error(), 1) {
        StreamAction::FinishErrorSend { text, reply_to } => {
            assert_eq!(text, "Error: boom");
            assert_eq!(reply_to, 5);
        }
        _ => panic!("no error"),
    }
    s.step(delta("so far", 1), 1);
    s.first_sent(Some(9), 1);
    match s.step(error(), 1) {
        StreamAction::FinishErrorEdit { message_id, html } => {
            assert_eq!(message_id, 9);
            assert!(html.starts_with("so far\n\n"));
            assert!(html.contains("Error: boom"));
        }
        _ => panic!("no error"),
    }
}

#[test]
fn answers_time_out() {
    let mut s = ResponseStream::new(1, 5, 100);
    let end = 100 + RESPONSE_TIMEOUT_NANOS;
    assert!(s.check_deadline(end - 1).is_none());
    let t = s.check_deadline(end).unwrap();
    assert_eq!(t.message, "Timeout waiting for agent response");
    assert!(t.edit.is_none());
    s.step(delta("so far", 1), 101);
    s.first_sent(Some(9), 102);
    let (id, html) = s.check_deadline(end).unwrap().edit.unwrap();
    assert_eq!(id, 9);
    assert!(html.starts_with("so far...\n\n"));
    assert!(html.contains("(timed out)"));
}
