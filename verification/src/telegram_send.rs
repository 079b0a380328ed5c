//! Sending a long text as several messages, one after the other.
use vstd::prelude::*;

use crate::telegram_html::{
    chunks, concatenated, html_of, law_chunks_lose_nothing, split_message, MAX_MESSAGE_CHARS,
};
use crate::text::opt_string;

verus! {

/// One of the messages that a text is sent as.
pub struct MessagePart {
    pub text: String,
    /// The message that it replies to.
    pub reply_to: Option<i64>,
}

/// The model of a message.
pub struct PartView {
    pub text: Seq<char>,
    pub reply_to: Option<i64>,
}

impl View for MessagePart {
    type V = PartView;

    open spec fn view(&self) -> PartView {
        PartView { text: self.text@, reply_to: self.reply_to }
    }
}

/// The models of a list of messages.
pub open spec fn parts_view(s: Seq<MessagePart>) -> Seq<PartView> {
    Seq::new(s.len(), |i: int| s[i]@)
}

/// Texts as messages, of which only the first is a reply.
pub open spec fn addressed(texts: Seq<Seq<char>>, reply_to: Option<i64>) -> Seq<PartView> {
    Seq::new(
        texts.len(),
        |i: int|
            PartView {
                text: texts[i],
                reply_to: if i == 0 {
                    reply_to
                } else {
                    None
                },
            },
    )
}

/// Makes messages of texts. Only the first is a reply.
pub fn address_parts(texts: &Vec<String>, reply_to: Option<i64>) -> (r: Vec<MessagePart>)
    ensures
        parts_view(r@) == addressed(texts.deep_view(), reply_to),
{
    let mut out: Vec<MessagePart> = Vec::new();
    let mut i: usize = 0;
    while i < texts.len()
        invariant
            i <= texts@.len(),
            out@.len() == i,
            forall|k: int|
                0 <= k < i ==> #[trigger] out@[k]@ == addressed(texts.deep_view(), reply_to)[k],
        decreases texts@.len() - i,
    {
        let target = if i == 0 {
            reply_to
        } else {
            None
        };
        assert(texts.deep_view()[i as int] == texts@[i as int]@);
        out.push(MessagePart { text: texts[i].clone(), reply_to: target });
        i += 1;
    }
    assert(parts_view(out@) =~= addressed(texts.deep_view(), reply_to));
    out
}

/// Cuts a text into messages. Only the first is a reply.
pub fn message_parts(text: &str, reply_to: Option<i64>) -> (r: Vec<MessagePart>)
    ensures
        parts_view(r@) == addressed(chunks(text@), reply_to),
{
    address_parts(&split_message(text), reply_to)
}

/// What is done next with a row of messages.
pub enum SendStep {
    Send { text: String, reply_to: Option<i64> },
    /// All were sent.
    Done,
    /// One could not be sent, and so the rest is not.
    Fail { error: String },
}

/// The model of what is done next.
pub enum SendStepView {
    Send(PartView),
    Done,
    Fail(Seq<char>),
}

impl View for SendStep {
    type V = SendStepView;

    open spec fn view(&self) -> SendStepView {
        match self {
            SendStep::Send { text, reply_to } => SendStepView::Send(
                PartView { text: text@, reply_to: *reply_to },
            ),
            SendStep::Done => SendStepView::Done,
            SendStep::Fail { error } => SendStepView::Fail(error@),
        }
    }
}

/// What is done after the first `tried` messages. `failed` says why the last of them could
/// not be sent, if it could not.
pub open spec fn send_step(
    parts: Seq<PartView>,
    tried: int,
    failed: Option<Seq<char>>,
) -> SendStepView {
    match failed {
        Some(error) => SendStepView::Fail(error),
        None => if tried < parts.len() {
            SendStepView::Send(parts[tried])
        } else {
            SendStepView::Done
        },
    }
}

/// What is done after the first `tried` messages, given why the last of them could not be
/// sent, if it could not.
pub fn next_send(parts: &Vec<MessagePart>, tried: usize, failed: Option<String>) -> (r: SendStep)
    ensures
        r@ == send_step(parts_view(parts@), tried as int, opt_string(failed)),
{
    match failed {
        Some(error) => SendStep::Fail { error },
        None => if tried < parts.len() {
            let part = &parts[tried];
            assert(parts_view(parts@)[tried as int] == parts@[tried as int]@);
            SendStep::Send { text: part.text.clone(), reply_to: part.reply_to }
        } else {
            SendStep::Done
        },
    }
}

/// The number of messages that are tried from the message `tried` on, and why the last of
/// them could not be sent, if it could not. `failures` says of each message why it cannot
/// be sent, if it cannot.
pub open spec fn sending(
    parts: Seq<PartView>,
    failures: Seq<Option<Seq<char>>>,
    tried: int,
    failed: Option<Seq<char>>,
) -> (int, Option<Seq<char>>)
    decreases parts.len() - tried,
{
    match send_step(parts, tried, failed) {
        SendStepView::Send(_) => if tried < parts.len() {
            sending(parts, failures, tried + 1, failures[tried])
        } else {
            (tried, None)
        },
        SendStepView::Done => (tried, None),
        SendStepView::Fail(error) => (tried, Some(error)),
    }
}

proof fn lemma_sending(parts: Seq<PartView>, failures: Seq<Option<Seq<char>>>, tried: int)
    requires
        0 <= tried <= parts.len(),
        failures.len() == parts.len(),
    ensures
        ({
            let (n, error) = sending(parts, failures, tried, None);
            &&& tried <= n <= parts.len()
            &&& match error {
                None => n == parts.len() && forall|i: int|
                    tried <= i < n ==> #[trigger] failures[i] is None,
                Some(_) => tried < n && failures[n - 1] == error && forall|i: int|
                    tried <= i < n - 1 ==> #[trigger] failures[i] is None,
            }
        }),
    decreases parts.len() - tried,
{
    if tried < parts.len() && failures[tried] is None {
        lemma_sending(parts, failures, tried + 1);
    } else if tried < parts.len() {
        assert(sending(parts, failures, tried + 1, failures[tried]) == (
            tried + 1,
            failures[tried],
        ));
    }
}

/// The messages of a text are sent in order, until one cannot be sent: its error is then
/// that of the whole. Where all are sent, nothing of the text is lost or repeated. None is
/// empty or too long, and only the first is a reply.
pub proof fn law_text_is_sent_in_order(
    text: Seq<char>,
    reply_to: Option<i64>,
    failures: Seq<Option<Seq<char>>>,
)
    requires
        failures.len() == chunks(text).len(),
    ensures
        ({
            let parts = addressed(chunks(text), reply_to);
            let (n, error) = sending(parts, failures, 0, None);
            &&& 0 <= n <= parts.len()
            &&& error is None ==> n == parts.len() && concatenated(chunks(text)) == text
                && forall|i: int| 0 <= i < n ==> #[trigger] failures[i] is None
            &&& error is Some ==> n > 0 && failures[n - 1] == error && forall|i: int|
                0 <= i < n - 1 ==> #[trigger] failures[i] is None
            &&& text.len() == 0 ==> n == 0
            &&& forall|i: int|
                0 <= i < parts.len() ==> {
                    &&& (#[trigger] parts[i]).text == chunks(text)[i]
                    &&& parts[i].text.len() > 0
                    &&& html_of(parts[i].text).len() <= MAX_MESSAGE_CHARS
                    &&& parts[i].reply_to == if i == 0 {
                        reply_to
                    } else {
                        None
                    }
                }
        }),
{
    law_chunks_lose_nothing(text);
    lemma_sending(addressed(chunks(text), reply_to), failures, 0);
}

} // verus!
