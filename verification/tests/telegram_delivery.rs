use sandboxed::telegram::{Incoming, Target, TelegramChannel, TelegramTriggerMode};
use sandboxed::telegram_delivery::{next_step, Progress, Step};

fn channel() -> TelegramChannel {
    TelegramChannel {
        id: 1,
        mission_id: 7,
        bot_token: "1:A".to_string(),
        bot_username: None,
        webhook_secret: None,
        allowed_chat_ids: Vec::new(),
        trigger_mode: TelegramTriggerMode::Always,
        instructions: Some("Be brief.".to_string()),
        auto_create_missions: true,
        default_workspace_id: None,
        default_agent: Some("Ada (X)".to_string()),
        default_model_override: None,
        default_model_effort: None,
        default_backend: None,
        default_config_profile: None,
    }
}

fn incoming(respond: bool, target: Target, file: bool) -> Incoming {
    Incoming {
        respond,
        sender: "@al".to_string(),
        text: "hi".to_string(),
        file: if file {
            Some(("f".to_string(), "a.txt".to_string(), "text/plain".to_string()))
        } else {
            None
        },
        target,
    }
}

const TOLD: &str = "[Telegram from @al in chat 5] [Instructions: Be brief.] hi";

fn next(p: Progress, i: &Incoming) -> Step {
    next_step(p, &channel(), 5, i)
}

#[test]
fn a_message_goes_straight_to_a_fixed_mission() {
    match next(Progress::Received, &incoming(true, Target::Mission(7), false)) {
        Step::Deliver { mission, content } => assert_eq!((mission, content.as_str()), (7, TOLD)),
        _ => panic!("not delivered"),
    }
    match next(Progress::Received, &incoming(false, Target::Mission(7), false)) {
        Step::Keep { mission, content } => assert_eq!((mission, content.as_str()), (7, TOLD)),
        _ => panic!("not kept"),
    }
}

#[test]
fn a_chat_without_a_mission_gets_one() {
    let i = incoming(true, Target::FindOrCreate, false);
    assert!(matches!(next(Progress::Received, &i), Step::LookUpChat));
    let found = Progress::ChatLookedUp { found: Some(3) };
    assert!(matches!(next(found, &i), Step::Deliver { mission: 3, .. }));
    match next(Progress::ChatLookedUp { found: None }, &i) {
        Step::CreateMission { request } => {
            assert_eq!(request.title.as_deref(), Some("Telegram: @al"));
            assert_eq!(request.agent.as_deref(), Some("ada"));
        }
        _ => panic!("no mission"),
    }
    let created = Progress::MissionCreated { created: Some(4) };
    assert!(matches!(next(created, &i), Step::RecordChat { created: 4 }));
    match next(Progress::MissionCreated { created: None }, &i) {
        Step::Apologize { text } => {
            assert_eq!(text, "Sorry, I couldn't start a new conversation. Please try again.")
        }
        _ => panic!("no apology"),
    }
    let recorded = |stored| Progress::ChatRecorded { created: 4, stored };
    assert!(matches!(next(recorded(Ok(())), &i), Step::Deliver { mission: 4, .. }));
    let taken = Err("UNIQUE constraint failed".to_string());
    assert!(matches!(next(recorded(taken), &i), Step::LookUpChatAgain { created: 4 }));
    let failed = Err("disk full".to_string());
    assert!(matches!(next(recorded(failed), &i), Step::Apologize { .. }));
    let again = |found| Progress::ChatLookedUpAgain { created: 4, found };
    assert!(matches!(next(again(Some(9)), &i), Step::Deliver { mission: 9, .. }));
    assert!(matches!(next(again(None), &i), Step::Deliver { mission: 4, .. }));
}

#[test]
fn context_creates_no_mission() {
    let i = incoming(false, Target::FindOnly, false);
    assert!(matches!(next(Progress::Received, &i), Step::LookUpChat));
    assert!(matches!(next(Progress::ChatLookedUp { found: None }, &i), Step::Drop));
    let found = Progress::ChatLookedUp { found: Some(3) };
    assert!(matches!(next(found, &i), Step::Keep { mission: 3, .. }));
}

#[test]
fn files_are_saved_first() {
    let i = incoming(true, Target::Mission(7), true);
    match next(Progress::Received, &i) {
        Step::SaveFile {
            mission,
            file_id,
            filename,
        } => assert_eq!((mission, file_id.as_str(), filename.as_str()), (7, "f", "a.txt")),
        _ => panic!("not saved"),
    }
    let saved = |saved| Progress::FileSaved { mission: 7, saved };
    match next(saved(Ok("/tmp/a.txt".to_string())), &i) {
        Step::Deliver { content, .. } => assert_eq!(
            content,
            "[Telegram from @al in chat 5] [Instructions: Be brief.] [Attached file: a.txt \
             (text/plain), saved to: /tmp/a.txt] hi"
        ),
        _ => panic!("not delivered"),
    }
    match next(saved(Err("gone".to_string())), &i) {
        Step::Deliver { content, .. } => assert!(content.contains("download failed: gone")),
        _ => panic!("not delivered"),
    }
}
