//! Handing a message from Telegram to a mission, step by step: which mission gets it,
//! what becomes of its file, and what the mission is told.
use vstd::prelude::*;

use crate::telegram::{
    after_lookup, after_mapping, bare_agent, chat_mission_request, content_parts, failed_note,
    file_annotation, message_content, no_mission_text, saved_note, CreateMission, Incoming,
    target_of, MappingStep, Target, TelegramChannel,
};
use crate::text::{has_infix, joined, lowercase, opt_string, signed_decimal};

verus! {

/// How far a message has come: what was done last, and what came of it.
#[allow(inconsistent_fields)]
pub enum Progress {
    /// Nothing was done yet.
    Received,
    /// The mission of the chat was looked up.
    ChatLookedUp { found: Option<u128> },
    /// A mission was to be created.
    MissionCreated { created: Option<u128> },
    /// The mission of the chat was recorded.
    ChatRecorded { created: u128, stored: Result<(), String> },
    /// The mission of the chat was looked up again.
    ChatLookedUpAgain { created: u128, found: Option<u128> },
    /// The file was saved under a path, or not.
    FileSaved { mission: u128, saved: Result<String, String> },
}

/// What is done next.
#[allow(inconsistent_fields)]
pub enum Step {
    LookUpChat,
    CreateMission { request: CreateMission },
    /// The mission becomes an assistant, and is recorded as that of the chat.
    RecordChat { created: u128 },
    LookUpChatAgain { created: u128 },
    /// The file is downloaded for the mission.
    SaveFile { mission: u128, file_id: String, filename: String },
    /// The mission is told, and its answer sent to the chat.
    Deliver { mission: u128, content: String },
    /// The mission is told when it is next asked for something.
    Keep { mission: u128, content: String },
    /// The sender is told that there is no mission.
    Apologize { text: String },
    Drop,
}

/// The note on a file, given what came of saving it.
pub open spec fn note_of(
    file: Option<(String, String, String)>,
    saved: Option<Result<String, String>>,
) -> Option<Seq<char>> {
    match (file, saved) {
        (Some(f), Some(Ok(path))) => Some(saved_note(f.1@, f.2@, path@)),
        (Some(f), Some(Err(e))) => Some(failed_note(f.1@, f.2@, e@)),
        _ => None,
    }
}

/// Whether `a` hands the message over to a mission.
pub open spec fn hands_over(
    channel: TelegramChannel,
    chat_id: i64,
    incoming: Incoming,
    mission: u128,
    saved: Option<Result<String, String>>,
    a: Step,
) -> bool {
    let content = joined(
        content_parts(
            incoming.sender@,
            chat_id as int,
            opt_string(channel.instructions),
            note_of(incoming.file, saved),
            incoming.text@,
        ),
        " "@,
    );
    if incoming.respond {
        a is Deliver && a->Deliver_mission == mission && a->Deliver_content@ == content
    } else {
        a is Keep && a->Keep_mission == mission && a->Keep_content@ == content
    }
}

/// Whether `a` goes on with a message whose mission is known: a file is saved first.
pub open spec fn goes_on(
    channel: TelegramChannel,
    chat_id: i64,
    incoming: Incoming,
    mission: u128,
    a: Step,
) -> bool {
    match incoming.file {
        Some(f) => {
            &&& a is SaveFile
            &&& a->SaveFile_mission == mission
            &&& a->SaveFile_file_id@ == f.0@
            &&& a->SaveFile_filename@ == f.1@
        },
        None => hands_over(channel, chat_id, incoming, mission, None, a),
    }
}

/// Whether `r` asks for the mission of a chat.
pub open spec fn asks_for_mission(
    r: CreateMission,
    channel: TelegramChannel,
    sender: Seq<char>,
) -> bool {
    &&& opt_string(r.title) == Some("Telegram: "@ + sender)
    &&& opt_string(r.agent) == match channel.default_agent {
        Some(a) => Some(lowercase(bare_agent(a@))),
        None => None,
    }
    &&& r.workspace_id == channel.default_workspace_id
    &&& r.model_override == channel.default_model_override
    &&& r.model_effort == channel.default_model_effort
    &&& r.backend == channel.default_backend
    &&& r.config_profile == channel.default_config_profile
}

/// Whether `a` tells the sender that there is no mission.
pub open spec fn apologizes(a: Step) -> bool {
    a is Apologize && a->Apologize_text@
        == "Sorry, I couldn't start a new conversation. Please try again."@
}

/// Whether `a` is what is done with a message after `p`. A chat without a mission gets
/// one only where the message is answered; else the message is dropped. Where two
/// messages create the mission of a chat at once, the first to be recorded counts.
pub open spec fn follows(
    p: Progress,
    channel: TelegramChannel,
    chat_id: i64,
    incoming: Incoming,
    a: Step,
) -> bool {
    match p {
        Progress::Received => match incoming.target {
            Target::Mission(id) => goes_on(channel, chat_id, incoming, id, a),
            Target::FindOrCreate | Target::FindOnly => a is LookUpChat,
        },
        Progress::ChatLookedUp { found } => match found {
            Some(id) => goes_on(channel, chat_id, incoming, id, a),
            None => if incoming.target == Target::FindOrCreate {
                a is CreateMission && asks_for_mission(
                    a->CreateMission_request,
                    channel,
                    incoming.sender@,
                )
            } else {
                a is Drop
            },
        },
        Progress::MissionCreated { created } => match created {
            Some(id) => a is RecordChat && a->RecordChat_created == id,
            None => apologizes(a),
        },
        Progress::ChatRecorded { created, stored } => match stored {
            Ok(_) => goes_on(channel, chat_id, incoming, created, a),
            Err(e) => if has_infix(e@, "UNIQUE constraint"@) {
                a is LookUpChatAgain && a->LookUpChatAgain_created == created
            } else {
                apologizes(a)
            },
        },
        Progress::ChatLookedUpAgain { created, found } => goes_on(
            channel,
            chat_id,
            incoming,
            match found {
                Some(id) => id,
                None => created,
            },
            a,
        ),
        Progress::FileSaved { mission, saved } => hands_over(
            channel,
            chat_id,
            incoming,
            mission,
            Some(saved),
            a,
        ),
    }
}

fn hand_over(
    channel: &TelegramChannel,
    chat_id: i64,
    incoming: &Incoming,
    mission: u128,
    note: Option<String>,
) -> (r: Step)
    ensures
        ({
            let content = joined(
                content_parts(
                    incoming.sender@,
                    chat_id as int,
                    opt_string(channel.instructions),
                    opt_string(note),
                    incoming.text@,
                ),
                " "@,
            );
            if incoming.respond {
                r is Deliver && r->Deliver_mission == mission && r->Deliver_content@ == content
            } else {
                r is Keep && r->Keep_mission == mission && r->Keep_content@ == content
            }
        }),
{
    let content = message_content(
        incoming.sender.as_str(),
        chat_id,
        &channel.instructions,
        &note,
        incoming.text.as_str(),
    );
    if incoming.respond {
        Step::Deliver { mission, content }
    } else {
        Step::Keep { mission, content }
    }
}

fn go_on(channel: &TelegramChannel, chat_id: i64, incoming: &Incoming, mission: u128) -> (r: Step)
    ensures
        goes_on(*channel, chat_id, *incoming, mission, r),
{
    match &incoming.file {
        Some(f) => Step::SaveFile { mission, file_id: f.0.clone(), filename: f.1.clone() },
        None => hand_over(channel, chat_id, incoming, mission, None),
    }
}

/// What is done next with a message from a chat.
pub fn next_step(
    progress: Progress,
    channel: &TelegramChannel,
    chat_id: i64,
    incoming: &Incoming,
) -> (r: Step)
    ensures
        follows(progress, *channel, chat_id, *incoming, r),
{
    match progress {
        Progress::Received => match incoming.target {
            Target::Mission(id) => go_on(channel, chat_id, incoming, id),
            Target::FindOrCreate => Step::LookUpChat,
            Target::FindOnly => Step::LookUpChat,
        },
        Progress::ChatLookedUp { found } => match found {
            Some(id) => go_on(channel, chat_id, incoming, id),
            None => if incoming.target == Target::FindOrCreate {
                Step::CreateMission {
                    request: chat_mission_request(channel, incoming.sender.as_str()),
                }
            } else {
                Step::Drop
            },
        },
        Progress::MissionCreated { created } => match created {
            Some(id) => Step::RecordChat { created: id },
            None => Step::Apologize { text: no_mission_text() },
        },
        Progress::ChatRecorded { created, stored } => match after_mapping(created, stored) {
            MappingStep::Use(id) => go_on(channel, chat_id, incoming, id),
            MappingStep::LookUp => Step::LookUpChatAgain { created },
            MappingStep::GiveUp => Step::Apologize { text: no_mission_text() },
        },
        Progress::ChatLookedUpAgain { created, found } => {
            let mission = after_lookup(created, found);
            go_on(channel, chat_id, incoming, mission)
        },
        Progress::FileSaved { mission, saved } => {
            let note = match &incoming.file {
                Some(f) => Some(file_annotation(f.1.as_str(), f.2.as_str(), saved)),
                None => None,
            };
            hand_over(channel, chat_id, incoming, mission, note)
        },
    }
}

/// A message that is not answered never creates a mission and never makes one answer.
pub proof fn law_context_is_only_kept(
    p: Progress,
    channel: TelegramChannel,
    chat_id: i64,
    incoming: Incoming,
    a: Step,
)
    requires
        !incoming.respond,
        incoming.target == target_of(channel, incoming.respond),
        follows(p, channel, chat_id, incoming, a),
    ensures
        !(a is CreateMission),
        !(a is Deliver),
{
}

/// A file that could not be saved does not keep a message from its mission.
pub proof fn law_failed_file_is_no_obstacle(
    mission: u128,
    error: String,
    channel: TelegramChannel,
    chat_id: i64,
    incoming: Incoming,
    a: Step,
)
    requires
        follows(
            Progress::FileSaved { mission, saved: Err(error) },
            channel,
            chat_id,
            incoming,
            a,
        ),
    ensures
        incoming.respond ==> a is Deliver && a->Deliver_mission == mission,
        !incoming.respond ==> a is Keep && a->Keep_mission == mission,
{
}

/// What a mission is told of a message whose file was saved: the message, and where the file
/// lies.
pub proof fn law_message_reaches_its_mission(
    mission: u128,
    channel: TelegramChannel,
    chat_id: i64,
    incoming: Incoming,
    path: String,
    p: Progress,
    a: Step,
)
    requires
        follows(p, channel, chat_id, incoming, a),
        incoming.text@.len() > 0,
        p == (Progress::FileSaved { mission, saved: Ok(path) }) || (incoming.file is None && (p
            == (Progress::ChatLookedUp { found: Some(mission) }) || p == (Progress::ChatRecorded {
            created: mission,
            stored: Ok(()),
        }) || (p == Progress::Received && incoming.target == Target::Mission(mission)) || p == (
        Progress::ChatLookedUpAgain { created: mission, found: None }))),
    ensures
        incoming.respond ==> a is Deliver && a->Deliver_mission == mission,
        !incoming.respond ==> a is Keep && a->Keep_mission == mission,
        ({
            let content = if incoming.respond {
                a->Deliver_content@
            } else {
                a->Keep_content@
            };
            let head = "[Telegram from "@ + incoming.sender@ + " in chat "@ + signed_decimal(
                chat_id as int,
            ) + "]"@;
            let told = match channel.instructions {
                Some(i) => " "@ + ("[Instructions: "@ + i@ + "]"@),
                None => Seq::empty(),
            };
            let noted = match (p, incoming.file) {
                (Progress::FileSaved { .. }, Some(f)) => " "@ + ("[Attached file: "@ + f.1@ + " ("@
                    + f.2@ + "), saved to: "@ + path@ + "]"@),
                _ => Seq::empty(),
            };
            content == head + told + noted + " "@ + incoming.text@
        }),
{
    let saved = match p {
        Progress::FileSaved { mission, saved } => Some(saved),
        _ => None,
    };
    let note = note_of(incoming.file, saved);
    let parts = content_parts(
        incoming.sender@,
        chat_id as int,
        opt_string(channel.instructions),
        note,
        incoming.text@,
    );
    let head = "[Telegram from "@ + incoming.sender@ + " in chat "@ + signed_decimal(chat_id as int)
        + "]"@;
    let sep = " "@;
    let before = parts.drop_last();
    assert(parts.last() == incoming.text@);
    assert(joined(parts, sep) == joined(before, sep) + sep + incoming.text@);
    match (channel.instructions, note) {
        (Some(i), Some(n)) => {
            let t = "[Instructions: "@ + i@ + "]"@;
            assert(before =~= seq![head, t, n]);
            assert(before.drop_last() =~= seq![head, t]);
            assert(seq![head, t].drop_last() =~= seq![head]);
            assert(joined(seq![head], sep) == head);
            assert(seq![head, t].last() == t && before.last() == n);
            assert(joined(seq![head, t], sep) == head + sep + t);
            assert(joined(before, sep) == head + sep + t + sep + n);
            assert(head + sep + t + sep + n =~= head + (sep + t) + (sep + n));
        },
        (Some(i), None) => {
            let t = "[Instructions: "@ + i@ + "]"@;
            assert(before =~= seq![head, t]);
            assert(before.drop_last() =~= seq![head]);
            assert(joined(seq![head], sep) == head);
            assert(joined(before, sep) == head + sep + t);
            assert(head + sep + t =~= head + (sep + t) + Seq::<char>::empty());
        },
        (None, Some(n)) => {
            assert(before =~= seq![head, n]);
            assert(before.drop_last() =~= seq![head]);
            assert(joined(seq![head], sep) == head);
            assert(joined(before, sep) == head + sep + n);
            assert(head + sep + n =~= head + Seq::<char>::empty() + (sep + n));
        },
        (None, None) => {
            assert(before =~= seq![head]);
            assert(head =~= head + Seq::<char>::empty() + Seq::<char>::empty());
        },
    }
}

/// What is done with a message step by step: its mission is found or created, its file is
/// saved first, and the mission of whoever was first to be recorded counts.
pub proof fn law_steps_of_a_delivery(
    p: Progress,
    channel: TelegramChannel,
    chat_id: i64,
    incoming: Incoming,
    a: Step,
)
    requires
        follows(p, channel, chat_id, incoming, a),
    ensures
        match p {
            Progress::Received => incoming.target == Target::FindOrCreate || incoming.target
                == Target::FindOnly ==> a is LookUpChat,
            Progress::ChatLookedUp { found: None } => {
                &&& incoming.target == Target::FindOnly ==> a is Drop
                &&& incoming.target == Target::FindOrCreate ==> a is CreateMission && {
                    let r = a->CreateMission_request;
                    &&& r.title matches Some(t) && t@ == "Telegram: "@ + incoming.sender@
                    &&& r.workspace_id == channel.default_workspace_id
                    &&& r.model_override == channel.default_model_override
                    &&& r.model_effort == channel.default_model_effort
                    &&& r.backend == channel.default_backend
                    &&& r.config_profile == channel.default_config_profile
                    &&& r.agent is Some == channel.default_agent is Some
                }
            },
            Progress::MissionCreated { created: None } => a is Apologize,
            Progress::MissionCreated { created: Some(id) } => a is RecordChat
                && a->RecordChat_created == id,
            Progress::ChatRecorded { created, stored: Err(e) } => {
                &&& has_infix(e@, "UNIQUE constraint"@) ==> a is LookUpChatAgain
                    && a->LookUpChatAgain_created == created
                &&& !has_infix(e@, "UNIQUE constraint"@) ==> a is Apologize
            },
            _ => true,
        },
        ({
            let ready = match p {
                Progress::Received => match incoming.target {
                    Target::Mission(id) => Some(id),
                    _ => None,
                },
                Progress::ChatLookedUp { found } => found,
                Progress::ChatRecorded { created, stored: Ok(_) } => Some(created),
                Progress::ChatLookedUpAgain { created, found } => if found is Some {
                    found
                } else {
                    Some(created)
                },
                _ => None,
            };
            (ready matches Some(id) && incoming.file matches Some(f)) ==> a is SaveFile
                && a->SaveFile_mission == ready->0 && a->SaveFile_file_id@ == (incoming.file->0).0@
                && a->SaveFile_filename@ == (incoming.file->0).1@
        }),
        a is Apologize ==> a->Apologize_text@
            == "Sorry, I couldn't start a new conversation. Please try again."@,
{
}

} // verus!
