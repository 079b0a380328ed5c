//! Connecting a user who came back from GitHub, step by step: the code is exchanged for a
//! token, the user is asked for, and the token is stored.
use vstd::prelude::*;

use crate::auth::{refuses, Refusal};
use crate::github::{
    after_exchange, after_user_lookup, callback_page, check_ready, connected_page, email_of,
    github_email, needs_email, pairs_view, primary_of, ready_client, store_failure, store_failure_text,
    token_form, token_in, unless_blank, ExchangeReply, GithubEmailResponse, GithubEnv,
    GithubTokenResponse, GithubUserResponse, PendingGithubOAuth, SecretKind, SecretWrite, UserReply,
};
use crate::text::{opt_string, trimmed};

verus! {

/// How far a connection has come: what was done last, and what came of it.
#[allow(inconsistent_fields)]
pub enum ConnectProgress {
    /// The user came back with a code. `store` says whether there is a store of secrets and
    /// why it cannot be used.
    Returned { store: Option<Result<(), String>> },
    /// The code was to be exchanged.
    Exchanged { reply: ExchangeReply },
    /// GitHub was asked for the user of the token.
    UserAsked { token: String, reply: GithubTokenResponse, user: UserReply },
    /// GitHub was asked for the addresses of the user.
    EmailsAsked {
        token: String,
        reply: GithubTokenResponse,
        user: GithubUserResponse,
        emails: Option<Vec<GithubEmailResponse>>,
    },
}

/// What is done next.
#[allow(inconsistent_fields)]
pub enum ConnectStep {
    Exchange { form: Vec<(String, String)> },
    AskUser { token: String, reply: GithubTokenResponse },
    AskEmails { token: String, reply: GithubTokenResponse, user: GithubUserResponse },
    /// The token is stored.
    Store {
        token: String,
        reply: GithubTokenResponse,
        user: GithubUserResponse,
        email: Option<String>,
    },
    Refuse { refusal: Refusal },
}

/// Whether `a` refuses with a status and a message.
pub open spec fn step_refuses(a: ConnectStep, status: u16, message: Seq<char>) -> bool {
    a is Refuse && refuses(a->Refuse_refusal, status, message)
}

/// Whether `a` is what is done after a code was exchanged.
pub open spec fn follows_exchange(reply: ExchangeReply, a: ConnectStep) -> bool {
    match reply {
        ExchangeReply::Failed(m) => step_refuses(a, 500, m@),
        ExchangeReply::HttpError { status, text } => step_refuses(
            a,
            502,
            "GitHub token exchange failed ("@ + status@ + "): "@ + text@,
        ),
        ExchangeReply::Reply(t) => match token_in(t) {
            Ok(token) => a is AskUser && a->AskUser_token@ == token && a->AskUser_reply == t,
            Err(m) => step_refuses(a, 502, m),
        },
    }
}

/// Whether `a` is what is done with the user of a token: the addresses are asked for where
/// the user shows none.
pub open spec fn follows_user(
    token: Seq<char>,
    reply: GithubTokenResponse,
    user: UserReply,
    a: ConnectStep,
) -> bool {
    match user {
        UserReply::Failed(m) => step_refuses(a, 502, "Failed to fetch GitHub user: "@ + m@),
        UserReply::HttpError { status, text } => step_refuses(
            a,
            502,
            "GitHub user fetch failed ("@ + status@ + "): "@ + text@,
        ),
        UserReply::Unreadable(m) => step_refuses(
            a,
            502,
            "Failed to parse GitHub user response: "@ + m@,
        ),
        UserReply::User(u) => if unless_blank(opt_string(u.email)) is None {
            &&& a is AskEmails
            &&& a->AskEmails_token@ == token
            &&& a->AskEmails_reply == reply
            &&& a->AskEmails_user == u
        } else {
            stores_token(token, reply, u, None, a)
        },
    }
}

/// Whether `a` stores a token with what is known of its user.
pub open spec fn stores_token(
    token: Seq<char>,
    reply: GithubTokenResponse,
    user: GithubUserResponse,
    emails: Option<Seq<GithubEmailResponse>>,
    a: ConnectStep,
) -> bool {
    &&& a is Store
    &&& a->Store_token@ == token
    &&& a->Store_reply == reply
    &&& a->Store_user == user
    &&& opt_string(a->Store_email) == email_of(user, emails)
}

/// Whether `a` is what is done after `p` with a user who came back with a code.
pub open spec fn connect_follows(
    p: ConnectProgress,
    env: GithubEnv,
    code: Seq<char>,
    pending: PendingGithubOAuth,
    a: ConnectStep,
) -> bool {
    match p {
        ConnectProgress::Returned { store } => match ready_client(env, store) {
            Err((status, m)) => step_refuses(a, status, m),
            Ok((id, secret)) => a is Exchange && pairs_view(a->Exchange_form@) == seq![
                ("client_id"@, id),
                ("client_secret"@, secret),
                ("code"@, code),
                ("redirect_uri"@, pending.redirect_uri@),
            ],
        },
        ConnectProgress::Exchanged { reply } => follows_exchange(reply, a),
        ConnectProgress::UserAsked { token, reply, user } => follows_user(token@, reply, user, a),
        ConnectProgress::EmailsAsked { token, reply, user, emails } => stores_token(
            token@,
            reply,
            user,
            match emails {
                Some(v) => Some(v@),
                None => None,
            },
            a,
        ),
    }
}

/// What is done next with a user who came back with a code.
pub fn next_connect_step(
    progress: ConnectProgress,
    env: &GithubEnv,
    code: &str,
    pending: &PendingGithubOAuth,
) -> (r: ConnectStep)
    ensures
        connect_follows(progress, *env, code@, *pending, r),
{
    match progress {
        ConnectProgress::Returned { store } => match check_ready(env, &store) {
            Err(refusal) => ConnectStep::Refuse { refusal },
            Ok((id, secret)) => ConnectStep::Exchange {
                form: token_form(
                    id.as_str(),
                    secret.as_str(),
                    code,
                    pending.redirect_uri.as_str(),
                ),
            },
        },
        ConnectProgress::Exchanged { reply } => match after_exchange(reply) {
            Err(refusal) => ConnectStep::Refuse { refusal },
            Ok((token, reply)) => ConnectStep::AskUser { token, reply },
        },
        ConnectProgress::UserAsked { token, reply, user } => match after_user_lookup(user) {
            Err(refusal) => ConnectStep::Refuse { refusal },
            Ok(user) => if needs_email(&user) {
                ConnectStep::AskEmails { token, reply, user }
            } else {
                let email = github_email(&user, &None);
                ConnectStep::Store { token, reply, user, email }
            },
        },
        ConnectProgress::EmailsAsked { token, reply, user, emails } => {
            let email = github_email(&user, &emails);
            ConnectStep::Store { token, reply, user, email }
        },
    }
}

/// What is done next with secrets that are to be stored.
#[allow(inconsistent_fields)]
pub enum WriteStep {
    /// The first is stored, and then the rest.
    Write { secret: SecretWrite, rest: Vec<SecretWrite> },
    /// All are stored; the user sees this page.
    Page { page: String },
    Refuse { refusal: Refusal },
}

/// Whether `a` is what is done with the secrets that are left, given which secret could not
/// be stored and why, if one could not.
pub open spec fn write_follows(
    left: Seq<SecretWrite>,
    failed: Option<(SecretKind, String)>,
    a: WriteStep,
) -> bool {
    match failed {
        Some((kind, e)) => a is Refuse && refuses(
            a->Refuse_refusal,
            500,
            store_failure_text(kind, e@),
        ),
        None => if left.len() == 0 {
            a is Page && a->Page_page@ == callback_page(
                "GitHub connected"@,
                "You can close this window and return to sandboxed.sh."@,
                true,
            )
        } else {
            a is Write && a->Write_secret == left[0] && a->Write_rest@ == left.drop_first()
        },
    }
}

/// What is done next with the secrets that are left, given which secret could not be stored
/// and why, if one could not.
pub fn next_write(left: Vec<SecretWrite>, failed: Option<(SecretKind, String)>) -> (r: WriteStep)
    ensures
        write_follows(left@, failed, r),
{
    match failed {
        Some((kind, e)) => WriteStep::Refuse { refusal: store_failure(kind, e.as_str()) },
        None => if left.len() == 0 {
            WriteStep::Page { page: connected_page() }
        } else {
            let mut rest = left;
            let secret = rest.remove(0);
            assert(rest@ =~= left@.drop_first());
            WriteStep::Write { secret, rest }
        },
    }
}

/// Nothing is stored of a user unless GitHub granted a token and said whose it is.
pub proof fn law_only_granted_tokens_are_stored(
    p: ConnectProgress,
    env: GithubEnv,
    code: Seq<char>,
    pending: PendingGithubOAuth,
    a: ConnectStep,
)
    requires
        connect_follows(p, env, code, pending, a),
    ensures
        a is Store ==> p is UserAsked || p is EmailsAsked,
        a is Store && p is UserAsked ==> p->UserAsked_user is User && a->Store_user
            == p->UserAsked_user->User_0,
        a is AskUser ==> p is Exchanged && p->Exchanged_reply is Reply && token_in(
            p->Exchanged_reply->Reply_0,
        ) == Ok::<Seq<char>, Seq<char>>(a->AskUser_token@),
{
}

/// The steps of a connection: the code is exchanged as this client, the user of the token is
/// asked for, the addresses only where the user shows none, and then the token is stored with
/// what is known. Whatever goes wrong ends it.
pub proof fn law_steps_of_a_connection(
    p: ConnectProgress,
    env: GithubEnv,
    code: Seq<char>,
    pending: PendingGithubOAuth,
    a: ConnectStep,
)
    requires
        connect_follows(p, env, code, pending, a),
    ensures
        match p {
            ConnectProgress::Returned { store } => match ready_client(env, store) {
                Err((status, m)) => a is Refuse && a->Refuse_refusal.status == status
                    && a->Refuse_refusal.message@ == m,
                Ok((id, secret)) => a is Exchange && pairs_view(a->Exchange_form@) == seq![
                    ("client_id"@, id),
                    ("client_secret"@, secret),
                    ("code"@, code),
                    ("redirect_uri"@, pending.redirect_uri@),
                ],
            },
            ConnectProgress::Exchanged { reply: ExchangeReply::Failed(m) } => a is Refuse
                && a->Refuse_refusal.status == 500 && a->Refuse_refusal.message@ == m@,
            ConnectProgress::Exchanged { reply: ExchangeReply::HttpError { status, text } } => {
                a is Refuse && a->Refuse_refusal.status == 502 && a->Refuse_refusal.message@
                    == "GitHub token exchange failed ("@ + status@ + "): "@ + text@
            },
            ConnectProgress::Exchanged { reply: ExchangeReply::Reply(t) } => {
                &&& t.error is None ==> (t.access_token matches Some(token) ==> a is AskUser
                    && a->AskUser_token@ == token@ && a->AskUser_reply == t)
                &&& t.error is Some || t.access_token is None ==> a is Refuse
                    && a->Refuse_refusal.status == 502
            },
            ConnectProgress::UserAsked { token, reply, user: UserReply::User(u) } => {
                let shown = u.email matches Some(e) && trimmed(e@).len() > 0;
                &&& shown ==> a is Store && a->Store_token@ == token@ && a->Store_reply == reply
                    && a->Store_user == u && (a->Store_email matches Some(e) && e@ == u.email->0@)
                &&& !shown ==> a is AskEmails && a->AskEmails_token@ == token@
                    && a->AskEmails_reply == reply && a->AskEmails_user == u
            },
            ConnectProgress::UserAsked { .. } => a is Refuse && a->Refuse_refusal.status == 502,
            ConnectProgress::EmailsAsked { token, reply, user, emails } => a is Store
                && a->Store_token@ == token@ && a->Store_reply == reply && a->Store_user == user && (
            user.email is None ==> (emails is None ==> a->Store_email is None) && (
            emails matches Some(v) ==> opt_string(a->Store_email) == primary_of(v@))),
        },
{
}

/// Secrets are stored in order, each once, until one cannot be; whoever is connected sees a
/// page that says so.
pub proof fn law_secrets_are_stored_in_order(
    left: Seq<SecretWrite>,
    failed: Option<(SecretKind, String)>,
    a: WriteStep,
)
    requires
        write_follows(left, failed, a),
    ensures
        failed is None && left.len() > 0 ==> a is Write && left == seq![a->Write_secret]
            + a->Write_rest@,
        failed is None && left.len() == 0 ==> a is Page && a->Page_page@ == callback_page(
            "GitHub connected"@,
            "You can close this window and return to sandboxed.sh."@,
            true,
        ),
        failed is Some ==> a is Refuse && a->Refuse_refusal.status == 500,
{
    if failed is None && left.len() > 0 {
        assert(left =~= seq![left[0]] + left.drop_first());
    }
}

} // verus!
