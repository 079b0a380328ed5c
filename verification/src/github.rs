//! Connecting a user to GitHub: the OAuth flow, and what is stored of it.
use vstd::prelude::*;

use crate::auth::{nonblank, nonblank_text, refusal, refuses, AuthUser, Config, Refusal, UserView};
use crate::clock::{is_present, rfc3339, utc_now, Moment, MAX_TIMESTAMP, MIN_TIMESTAMP};
use crate::ids::{new_uuid, uuid_text, uuid_to_string};
use crate::text::{
    blank, cat2, cat3, chars_of, clone_opt, decimal, has_infix, i64_text, is_blank, is_whitespace,
    law_parts_of_a_text, law_trim_keeps_the_middle, opt_string, signed_decimal, str_eq, trim, trim_back, trim_set_back, trimmed, u64_text, CharSet,
};
use crate::textmap::{lemma_texts_insert, texts, TextMap};

verus! {

pub const GITHUB_OAUTH_REGISTRY: &'static str = "github-oauth";

pub const GITHUB_ACCESS_TOKEN_SUFFIX: &'static str = "access-token";

pub const GITHUB_REFRESH_TOKEN_SUFFIX: &'static str = "refresh-token";

pub const GITHUB_AUTHORIZE_URL: &'static str = "https://github.com/login/oauth/authorize";

pub const GITHUB_TOKEN_URL: &'static str = "https://github.com/login/oauth/access_token";

pub const GITHUB_USER_URL: &'static str = "https://api.github.com/user";

pub const GITHUB_USER_EMAILS_URL: &'static str = "https://api.github.com/user/emails";

pub const GITHUB_DEFAULT_SCOPES: &'static str = "repo workflow read:user user:email";

/// How long a user has to authorise, in nanoseconds.
pub const PENDING_LIFETIME_NANOS: i128 = 900_000_000_000;

// ---------------------------------------------------------------------------
// Configuration
// ---------------------------------------------------------------------------

/// What the environment says of GitHub.
pub struct GithubEnv {
    /// `GITHUB_OAUTH_CLIENT_ID`
    pub client_id: Option<String>,
    /// `GITHUB_OAUTH_CLIENT_SECRET`
    pub client_secret: Option<String>,
    /// `GITHUB_OAUTH_SCOPES`
    pub scopes: Option<String>,
    /// `GITHUB_OAUTH_REDIRECT_URI`
    pub redirect_uri: Option<String>,
    /// `SANDBOXED_PUBLIC_URL`
    pub public_url: Option<String>,
}

pub fn github_oauth_client_id(env: &GithubEnv) -> (r: Option<String>)
    ensures
        opt_string(r) == nonblank(opt_string(env.client_id)),
{
    nonblank_text(&env.client_id)
}

pub fn github_oauth_client_secret(env: &GithubEnv) -> (r: Option<String>)
    ensures
        opt_string(r) == nonblank(opt_string(env.client_secret)),
{
    nonblank_text(&env.client_secret)
}

/// What GitHub is asked for.
pub open spec fn scopes_of(env: GithubEnv) -> Seq<char> {
    match nonblank(opt_string(env.scopes)) {
        Some(s) => s,
        None => GITHUB_DEFAULT_SCOPES@,
    }
}

pub fn github_oauth_scopes(env: &GithubEnv) -> (r: String)
    ensures
        r@ == scopes_of(*env),
{
    match nonblank_text(&env.scopes) {
        Some(s) => s,
        None => GITHUB_DEFAULT_SCOPES.to_string(),
    }
}

pub fn trim_trailing_slash(value: &str) -> (r: String)
    ensures
        r@ == trim_back(value@, CharSet::One('/')),
{
    trim_set_back(value, CharSet::One('/')).to_string()
}

/// Where GitHub sends the user back to.
pub open spec fn redirect_of(env: GithubEnv, host: Seq<char>, port: u16) -> Seq<char> {
    match nonblank(opt_string(env.redirect_uri)) {
        Some(uri) => uri,
        None => match nonblank(opt_string(env.public_url)) {
            Some(url) => trim_back(url, CharSet::One('/')) + "/api/auth/github/callback"@,
            None => "http://"@ + host + ":"@ + decimal(port as nat) + "/api/auth/github/callback"@,
        },
    }
}

pub fn github_oauth_redirect_uri(env: &GithubEnv, config: &Config) -> (r: String)
    ensures
        r@ == redirect_of(*env, config.host@, config.port),
{
    if let Some(uri) = nonblank_text(&env.redirect_uri) {
        return uri;
    }
    if let Some(url) = nonblank_text(&env.public_url) {
        let base = trim_trailing_slash(url.as_str());
        return cat2(base.as_str(), "/api/auth/github/callback");
    }
    let port = u64_text(config.port as u64);
    let mut out = cat3("http://", config.host.as_str(), ":");
    out.push_str(port.as_str());
    out.push_str("/api/auth/github/callback");
    out
}

/// Whether GitHub can be connected at all.
pub open spec fn configured(env: GithubEnv) -> bool {
    nonblank(opt_string(env.client_id)) is Some && nonblank(opt_string(env.client_secret)) is Some
}

pub fn github_oauth_configured(env: &GithubEnv) -> (r: bool)
    ensures
        r == configured(*env),
{
    github_oauth_client_id(env).is_some() && github_oauth_client_secret(env).is_some()
}

/// The name under which a secret of a user is stored, given the user's identifier in
/// a form that fits a file name.
pub open spec fn secret_key(safe_user_id: Seq<char>, suffix: Seq<char>) -> Seq<char> {
    safe_user_id + "-"@ + suffix
}

pub fn github_secret_key(safe_user_id: &str, suffix: &str) -> (r: String)
    ensures
        r@ == secret_key(safe_user_id@, suffix@),
{
    cat3(safe_user_id, "-", suffix)
}

/// Whether the store of secrets can be used: whether it had to be initialised and why
/// that failed, and whether it is unlocked.
pub fn secrets_ready(init_error: &Option<String>, can_decrypt: bool) -> (r: Result<(), String>)
    ensures
        match *init_error {
            Some(e) => r matches Err(m) && m@ == "Failed to initialize secrets store: "@ + e@,
            None => if can_decrypt {
                r is Ok
            } else {
                r matches Err(m) && m@
                    == "Secrets store is locked. Unlock it or set SANDBOXED_SECRET_PASSPHRASE before connecting GitHub."@
            },
        },
{
    match init_error {
        Some(e) => Err(cat2("Failed to initialize secrets store: ", e.as_str())),
        None => if can_decrypt {
            Ok(())
        } else {
            Err(
                "Secrets store is locked. Unlock it or set SANDBOXED_SECRET_PASSPHRASE before connecting GitHub.".to_string(),
            )
        },
    }
}

/// The client that talks to GitHub, or why there is none.
pub fn require_client(env: &GithubEnv) -> (r: Result<(String, String), Refusal>)
    ensures
        match (nonblank(opt_string(env.client_id)), nonblank(opt_string(env.client_secret))) {
            (None, _) => r matches Err(e) && refuses(
                e,
                400,
                "GITHUB_OAUTH_CLIENT_ID is not configured"@,
            ),
            (Some(_), None) => r matches Err(e) && refuses(
                e,
                400,
                "GITHUB_OAUTH_CLIENT_SECRET is not configured"@,
            ),
            (Some(id), Some(secret)) => r matches Ok(c) && c.0@ == id && c.1@ == secret,
        },
{
    match github_oauth_client_id(env) {
        None => Err(refusal(400, "GITHUB_OAUTH_CLIENT_ID is not configured")),
        Some(id) => match github_oauth_client_secret(env) {
            None => Err(refusal(400, "GITHUB_OAUTH_CLIENT_SECRET is not configured")),
            Some(secret) => Ok((id, secret)),
        },
    }
}

/// The refusal where there is no store of secrets.
pub fn secrets_unavailable() -> (r: Refusal)
    ensures
        refuses(r, 503, "Secrets store is not available"@),
{
    refusal(503, "Secrets store is not available")
}

// ---------------------------------------------------------------------------
// Status
// ---------------------------------------------------------------------------

/// What is known of a secret.
pub struct SecretInfo {
    pub key: String,
    pub labels: TextMap<String>,
    pub expires_at: Option<i64>,
    pub is_expired: bool,
}

#[derive(Debug)]
pub struct GithubOAuthStatusResponse {
    pub configured: bool,
    pub connected: bool,
    pub can_decrypt: bool,
    pub login: Option<String>,
    pub github_user_id: Option<String>,
    pub name: Option<String>,
    pub email: Option<String>,
    pub scopes: Option<String>,
    pub connected_at: Option<String>,
    pub expires_at: Option<i64>,
    pub is_expired: bool,
    pub message: Option<String>,
}

/// A label that may be there.
pub open spec fn label(labels: Map<Seq<char>, String>, key: Seq<char>) -> Option<String> {
    if labels.dom().contains(key) {
        Some(labels[key])
    } else {
        None
    }
}

fn clone_label(labels: &TextMap<String>, key: &str) -> (r: Option<String>)
    ensures
        r == label(labels@, key@),
{
    match labels.get(key) {
        Some(v) => Some(v.clone()),
        None => None,
    }
}

/// Whether `r` says that nothing is connected.
pub open spec fn says_disconnected(r: GithubOAuthStatusResponse) -> bool {
    &&& !r.connected
    &&& r.login is None
    &&& r.github_user_id is None
    &&& r.name is None
    &&& r.email is None
    &&& r.scopes is None
    &&& r.connected_at is None
    &&& r.expires_at is None
    &&& !r.is_expired
}

fn disconnected(configured: bool, can_decrypt: bool, message: Option<String>) -> (r:
    GithubOAuthStatusResponse)
    ensures
        says_disconnected(r),
        r.configured == configured,
        r.can_decrypt == can_decrypt,
        r.message == message,
{
    GithubOAuthStatusResponse {
        configured,
        connected: false,
        can_decrypt,
        login: None,
        github_user_id: None,
        name: None,
        email: None,
        scopes: None,
        connected_at: None,
        expires_at: None,
        is_expired: false,
        message,
    }
}

/// The first secret with a key.
pub open spec fn secret_with_key(secrets: Seq<SecretInfo>, key: Seq<char>) -> Option<SecretInfo>
    decreases secrets.len(),
{
    if secrets.len() == 0 {
        None
    } else if secrets[0].key@ == key {
        Some(secrets[0])
    } else {
        secret_with_key(secrets.drop_first(), key)
    }
}

fn find_secret<'a>(secrets: &'a Vec<SecretInfo>, key: &str) -> (r: Option<&'a SecretInfo>)
    ensures
        match r {
            Some(s) => secret_with_key(secrets@, key@) == Some(*s),
            None => secret_with_key(secrets@, key@) is None,
        },
{
    let mut i: usize = 0;
    assert(secrets@.skip(0) == secrets@);
    while i < secrets.len()
        invariant
            i <= secrets@.len(),
            secret_with_key(secrets@, key@) == secret_with_key(secrets@.skip(i as int), key@),
        decreases secrets@.len() - i,
    {
        assert(secrets@.skip(i as int).drop_first() == secrets@.skip(i + 1));
        if str_eq(secrets[i].key.as_str(), key) {
            return Some(&secrets[i]);
        }
        i += 1;
    }
    None
}

/// The secrets in a store, if they could be listed.
pub open spec fn listed_secret(secrets: Option<Vec<SecretInfo>>, key: Seq<char>) -> Option<
    SecretInfo,
> {
    match secrets {
        Some(v) => secret_with_key(v@, key),
        None => None,
    }
}

/// Whether a user is connected to GitHub, where there is a store of secrets.
pub open spec fn status_says(
    r: GithubOAuthStatusResponse,
    configured: bool,
    can_decrypt: bool,
    info: Option<SecretInfo>,
) -> bool {
    &&& r.configured == configured
    &&& r.can_decrypt == can_decrypt
    &&& match info {
        None => says_disconnected(r) && r.message is None,
        Some(s) => {
            &&& r.connected == !s.is_expired
            &&& r.login == label(s.labels@, "github_login"@)
            &&& r.github_user_id == label(s.labels@, "github_user_id"@)
            &&& r.name == label(s.labels@, "github_name"@)
            &&& r.email == label(s.labels@, "github_email"@)
            &&& r.scopes == label(s.labels@, "scopes"@)
            &&& r.connected_at == label(s.labels@, "connected_at"@)
            &&& r.expires_at == s.expires_at
            &&& r.is_expired == s.is_expired
            &&& opt_string(r.message) == if s.is_expired {
                Some("GitHub OAuth token is expired; reconnect GitHub."@)
            } else {
                None
            }
        },
    }
}

/// Whether a user is connected to GitHub, where there is no store of secrets.
pub fn github_status_without_store(env: &GithubEnv) -> (r: GithubOAuthStatusResponse)
    ensures
        says_disconnected(r),
        r.configured == configured(*env),
        !r.can_decrypt,
        opt_string(r.message) == Some("Secrets store is not available"@),
{
    disconnected(
        github_oauth_configured(env),
        false,
        Some("Secrets store is not available".to_string()),
    )
}

/// Whether a user is connected to GitHub, given the secrets in the store.
pub fn github_oauth_status(
    env: &GithubEnv,
    can_decrypt: bool,
    safe_user_id: &str,
    secrets: &Option<Vec<SecretInfo>>,
) -> (r: GithubOAuthStatusResponse)
    ensures
        status_says(
            r,
            configured(*env),
            can_decrypt,
            listed_secret(*secrets, secret_key(safe_user_id@, GITHUB_ACCESS_TOKEN_SUFFIX@)),
        ),
{
    let key = github_secret_key(safe_user_id, GITHUB_ACCESS_TOKEN_SUFFIX);
    let found = match secrets {
        Some(v) => find_secret(v, key.as_str()),
        None => None,
    };
    match found {
        None => disconnected(github_oauth_configured(env), can_decrypt, None),
        Some(info) => GithubOAuthStatusResponse {
            configured: github_oauth_configured(env),
            connected: !info.is_expired,
            can_decrypt,
            login: clone_label(&info.labels, "github_login"),
            github_user_id: clone_label(&info.labels, "github_user_id"),
            name: clone_label(&info.labels, "github_name"),
            email: clone_label(&info.labels, "github_email"),
            scopes: clone_label(&info.labels, "scopes"),
            connected_at: clone_label(&info.labels, "connected_at"),
            expires_at: info.expires_at,
            is_expired: info.is_expired,
            message: if info.is_expired {
                Some("GitHub OAuth token is expired; reconnect GitHub.".to_string())
            } else {
                None
            },
        },
    }
}

#[derive(Debug)]
pub struct GithubOAuthCredentials {
    pub access_token: String,
    pub login: Option<String>,
    pub github_user_id: Option<String>,
    pub name: Option<String>,
    pub email: Option<String>,
}

/// The secret that holds the credentials of a user, unless it has expired.
pub fn credentials_secret<'a>(secrets: &'a Vec<SecretInfo>, safe_user_id: &str) -> (r: Option<
    &'a SecretInfo,
>)
    ensures
        ({
            let found = secret_with_key(
                secrets@,
                secret_key(safe_user_id@, GITHUB_ACCESS_TOKEN_SUFFIX@),
            );
            match r {
                Some(s) => found == Some(*s) && !s.is_expired,
                None => found matches Some(s) ==> s.is_expired,
            }
        }),
{
    let key = github_secret_key(safe_user_id, GITHUB_ACCESS_TOKEN_SUFFIX);
    match find_secret(secrets, key.as_str()) {
        Some(s) => if s.is_expired {
            None
        } else {
            Some(s)
        },
        None => None,
    }
}

/// The credentials of a user, given the secrets in the store and the access token, where
/// it could be read.
pub fn github_oauth_credentials_for_user(
    secrets: &Vec<SecretInfo>,
    safe_user_id: &str,
    access_token: Option<String>,
) -> (r: Option<GithubOAuthCredentials>)
    ensures
        ({
            let found = secret_with_key(
                secrets@,
                secret_key(safe_user_id@, GITHUB_ACCESS_TOKEN_SUFFIX@),
            );
            match (found, access_token) {
                (Some(s), Some(token)) => if s.is_expired {
                    r is None
                } else {
                    r matches Some(c) && c.access_token == token && c.login == label(
                        s.labels@,
                        "github_login"@,
                    ) && c.github_user_id == label(s.labels@, "github_user_id"@) && c.name == label(
                        s.labels@,
                        "github_name"@,
                    ) && c.email == label(s.labels@, "github_email"@)
                },
                _ => r is None,
            }
        }),
{
    match (credentials_secret(secrets, safe_user_id), access_token) {
        (Some(info), Some(access_token)) => Some(
            GithubOAuthCredentials {
                access_token,
                login: clone_label(&info.labels, "github_login"),
                github_user_id: clone_label(&info.labels, "github_user_id"),
                name: clone_label(&info.labels, "github_name"),
                email: clone_label(&info.labels, "github_email"),
            },
        ),
        _ => None,
    }
}

// ---------------------------------------------------------------------------
// Authorisation
// ---------------------------------------------------------------------------

/// A user who was sent to GitHub and has not come back yet.
#[derive(Debug)]
pub struct PendingGithubOAuth {
    pub user: AuthUser,
    pub redirect_uri: String,
    pub created_at: Moment,
}

/// The users who were sent to GitHub, by the state that GitHub sends back.
pub struct PendingAuthorizations {
    pending: TextMap<PendingGithubOAuth>,
}

impl View for PendingAuthorizations {
    type V = Map<Seq<char>, PendingGithubOAuth>;

    closed spec fn view(&self) -> Map<Seq<char>, PendingGithubOAuth> {
        self.pending@
    }
}

/// Whether an authorisation still counts at the time `now`.
pub open spec fn is_fresh(p: PendingGithubOAuth, now: Moment) -> bool {
    p.created_at.at() >= now.at() - PENDING_LIFETIME_NANOS
}

/// Whether `after` awaits one more user than `before`, under a state, of whom those who are
/// long gone at the time of `p` are forgotten.
pub open spec fn awaits(
    before: Map<Seq<char>, PendingGithubOAuth>,
    state: Seq<char>,
    p: PendingGithubOAuth,
    after: Map<Seq<char>, PendingGithubOAuth>,
) -> bool {
    &&& after.dom().contains(state)
    &&& after[state] == p
    &&& forall|k: Seq<char>|
        k != state ==> #[trigger] after.dom().contains(k) == (before.dom().contains(k) && is_fresh(
            before[k],
            p.created_at,
        ))
    &&& forall|k: Seq<char>|
        k != state && after.dom().contains(k) ==> #[trigger] after[k] == before[k]
}

impl PendingAuthorizations {
    pub fn new() -> (r: Self)
        ensures
            r@ == Map::<Seq<char>, PendingGithubOAuth>::empty(),
    {
        PendingAuthorizations { pending: TextMap::new() }
    }

    /// Forgets the authorisations that no longer count.
    fn purge(&mut self, now: Moment)
        ensures
            forall|k: Seq<char>| #[trigger]
                final(self)@.dom().contains(k) == (old(self)@.dom().contains(k) && is_fresh(
                    old(self)@[k],
                    now,
                )),
            forall|k: Seq<char>|
                final(self)@.dom().contains(k) ==> #[trigger] final(self)@[k] == old(self)@[k],
    {
        let keys = self.pending.keys();
        let ghost first = self.pending@;
        let ghost all = keys.deep_view();
        let cutoff: i128 = now.nanoseconds() - PENDING_LIFETIME_NANOS;
        let mut i: usize = 0;
        while i < keys.len()
            invariant
                i <= keys@.len(),
                all == keys.deep_view(),
                cutoff == now.at() - PENDING_LIFETIME_NANOS,
                forall|k: Seq<char>| #[trigger]
                    self.pending@.dom().contains(k) == (first.dom().contains(k) && !(exists|j: int|
                        0 <= j < i && #[trigger] all[j] == k && !is_fresh(first[k], now))),
                forall|k: Seq<char>|
                    self.pending@.dom().contains(k) ==> #[trigger] self.pending@[k] == first[k],
            decreases keys@.len() - i,
        {
            let ghost key = keys@[i as int]@;
            assert(all[i as int] == key);
            let ghost before = self.pending@;
            let stale = match self.pending.get(keys[i].as_str()) {
                Some(p) => p.created_at.nanoseconds() < cutoff,
                None => false,
            };
            if stale {
                self.pending.remove(keys[i].as_str());
            }
            proof {
                assert forall|k: Seq<char>| #[trigger]
                    self.pending@.dom().contains(k) == (first.dom().contains(k) && !(exists|j: int|
                        0 <= j < i + 1 && #[trigger] all[j] == k && !is_fresh(first[k], now))) by {
                    if k == key {
                        if first.dom().contains(k) && !is_fresh(first[k], now) {
                            assert(all[i as int] == k);
                        }
                    } else {
                        assert(self.pending@.dom().contains(k) == before.dom().contains(k));
                        if exists|j: int|
                            0 <= j < i + 1 && #[trigger] all[j] == k && !is_fresh(first[k], now) {
                            let j = choose|j: int|
                                0 <= j < i + 1 && #[trigger] all[j] == k && !is_fresh(
                                    first[k],
                                    now,
                                );
                            assert(j < i);
                        }
                    }
                }
            }
            i += 1;
        }
        proof {
            assert forall|k: Seq<char>| #[trigger] self.pending@.dom().contains(k) == (
            first.dom().contains(k) && is_fresh(first[k], now)) by {
                if first.dom().contains(k) {
                    assert(all.contains(k));
                    let j = choose|j: int| 0 <= j < all.len() && all[j] == k;
                    assert(all[j] == k);
                }
            }
        }
    }

    /// Records a user who is sent to GitHub under a state.
    pub fn begin(&mut self, state: String, user: AuthUser, redirect_uri: String, now: Moment)
        ensures
            awaits(
                old(self)@,
                state@,
                PendingGithubOAuth { user, redirect_uri, created_at: now },
                final(self)@,
            ),
    {
        self.purge(now);
        let ghost kept = self@;
        self.pending.insert(state, PendingGithubOAuth { user, redirect_uri, created_at: now });
        proof {
            assert forall|k: Seq<char>|
                k != state@ implies #[trigger] self@.dom().contains(k) == kept.dom().contains(k) by {}
            assert forall|k: Seq<char>|
                k != state@ && kept.dom().contains(k) implies #[trigger] self@[k] == kept[k] by {}
        }
    }

    /// Takes the user who was sent to GitHub under a state. A state counts once.
    pub fn take(&mut self, state: &str) -> (r: Result<PendingGithubOAuth, Refusal>)
        ensures
            final(self)@ == old(self)@.remove(state@),
            match r {
                Ok(p) => old(self)@.dom().contains(state@) && old(self)@[state@] == p,
                Err(e) => !old(self)@.dom().contains(state@) && refuses(
                    e,
                    400,
                    "OAuth state is invalid or expired"@,
                ),
            },
    {
        match self.pending.remove(state) {
            Some(p) => Ok(p),
            None => Err(refusal(400, "OAuth state is invalid or expired")),
        }
    }
}

impl Default for PendingAuthorizations {
    fn default() -> (r: Self)
        ensures
            r@ == Map::<Seq<char>, PendingGithubOAuth>::empty(),
    {
        Self::new()
    }
}

/// The state that a user is sent to GitHub with finds the user again, and the address that
/// GitHub was told to send the user back to.
pub proof fn law_state_finds_its_user(
    env: GithubEnv,
    config: Config,
    store: Option<Result<(), String>>,
    before: Map<Seq<char>, PendingGithubOAuth>,
    user: AuthUser,
    state_token: Seq<char>,
    now: Moment,
    after: Map<Seq<char>, PendingGithubOAuth>,
    r: Result<GithubOAuthAuthorizeResponse, AuthorizeError>,
)
    requires
        authorizes(env, config, store, before, user, state_token, now, after, r),
        r is Ok,
    ensures
        ({
            let a = r->Ok_0;
            &&& after.dom().contains(a.state@)
            &&& after[a.state@].user == user
            &&& after[a.state@].redirect_uri@ == a.redirect_uri@
        }),
{
}

/// What happens to the users who are awaited back.
pub enum PendingChange {
    /// One more is awaited under a state.
    Begun { state: Seq<char>, user: PendingGithubOAuth },
    /// The user under a state, if there is one, is no longer awaited.
    Taken { state: Seq<char> },
}

/// Whether a change leads from `before` to `after`.
pub open spec fn changes_pending(
    before: Map<Seq<char>, PendingGithubOAuth>,
    change: PendingChange,
    after: Map<Seq<char>, PendingGithubOAuth>,
) -> bool {
    match change {
        PendingChange::Begun { state, user } => awaits(before, state, user, after),
        PendingChange::Taken { state } => after == before.remove(state),
    }
}

/// Whether a change awaits a user under a state.
pub open spec fn begins_state(change: PendingChange, state: Seq<char>) -> bool {
    change is Begun && change->Begun_state == state
}

/// A state that was taken cannot be taken again, whatever happens to other states
/// meanwhile: it finds nobody until it is begun anew.
pub proof fn law_state_counts_once(
    history: Seq<Map<Seq<char>, PendingGithubOAuth>>,
    changes: Seq<PendingChange>,
    state: Seq<char>,
    i: int,
)
    requires
        history.len() == changes.len() + 1,
        forall|k: int|
            0 <= k < changes.len() ==> changes_pending(
                history[k],
                #[trigger] changes[k],
                history[k + 1],
            ),
        changes.len() > 0 && changes[0] == (PendingChange::Taken { state }),
        forall|k: int| 0 <= k < changes.len() ==> !begins_state(#[trigger] changes[k], state),
        1 <= i < history.len(),
    ensures
        !history[i].dom().contains(state),
    decreases i,
{
    assert(changes_pending(history[i - 1], changes[i - 1], history[i]));
    assert(!begins_state(changes[i - 1], state));
    if i > 1 {
        law_state_counts_once(history, changes, state, i - 1);
    }
}

#[derive(Debug)]
pub struct GithubOAuthAuthorizeResponse {
    pub url: String,
    pub state: String,
    pub redirect_uri: String,
    pub scopes: String,
}

/// What `url::Url` prints for a base address with query parameters; nothing where the
/// base is no address.
pub uninterp spec fn url_with_query(
    base: Seq<char>,
    pairs: Seq<(Seq<char>, Seq<char>)>,
) -> Option<Seq<char>>;

/// The texts of query parameters.
pub open spec fn pairs_view(s: Seq<(String, String)>) -> Seq<(Seq<char>, Seq<char>)> {
    Seq::new(s.len(), |i: int| (s[i].0@, s[i].1@))
}

/// Calls `url::Url::parse_with_params`, which appends the parameters in order, and
/// prints the address. The result is named: it depends on the arguments alone.
#[verifier::external_body]
fn build_url(base: &str, pairs: &Vec<(String, String)>) -> (r: Option<String>)
    ensures
        opt_string(r) == url_with_query(base@, pairs_view(pairs@)),
{
    url::Url::parse_with_params(base, pairs.iter().map(|p| (p.0.as_str(), p.1.as_str())))
        .ok()
        .map(|u| u.to_string())
}

/// What GitHub is told of a user who is sent to it.
pub open spec fn authorize_params(
    client_id: Seq<char>,
    redirect_uri: Seq<char>,
    scopes: Seq<char>,
    state: Seq<char>,
) -> Seq<(Seq<char>, Seq<char>)> {
    seq![
        ("client_id"@, client_id),
        ("redirect_uri"@, redirect_uri),
        ("scope"@, scopes),
        ("state"@, state),
        ("allow_signup"@, "true"@),
    ]
}

pub fn authorize_query(client_id: &str, redirect_uri: &str, scopes: &str, state: &str) -> (r: Vec<
    (String, String),
>)
    ensures
        pairs_view(r@) == authorize_params(client_id@, redirect_uri@, scopes@, state@),
{
    let mut v: Vec<(String, String)> = Vec::new();
    v.push(("client_id".to_string(), client_id.to_string()));
    v.push(("redirect_uri".to_string(), redirect_uri.to_string()));
    v.push(("scope".to_string(), scopes.to_string()));
    v.push(("state".to_string(), state.to_string()));
    v.push(("allow_signup".to_string(), "true".to_string()));
    assert(pairs_view(v@) =~= authorize_params(client_id@, redirect_uri@, scopes@, state@));
    v
}

/// The client that talks to GitHub, once it is clear that what comes of it can be
/// stored. `store` says whether there is a store of secrets and why it cannot be used.
pub open spec fn ready_client(
    env: GithubEnv,
    store: Option<Result<(), String>>,
) -> Result<(Seq<char>, Seq<char>), (u16, Seq<char>)> {
    match (nonblank(opt_string(env.client_id)), nonblank(opt_string(env.client_secret))) {
        (None, _) => Err((400, "GITHUB_OAUTH_CLIENT_ID is not configured"@)),
        (Some(_), None) => Err((400, "GITHUB_OAUTH_CLIENT_SECRET is not configured"@)),
        (Some(id), Some(secret)) => match store {
            None => Err((503, "Secrets store is not available"@)),
            Some(Err(e)) => Err((400, e@)),
            Some(Ok(_)) => Ok((id, secret)),
        },
    }
}

pub fn check_ready(env: &GithubEnv, store: &Option<Result<(), String>>) -> (r: Result<
    (String, String),
    Refusal,
>)
    ensures
        match ready_client(*env, *store) {
            Ok(c) => r matches Ok(v) && v.0@ == c.0 && v.1@ == c.1,
            Err((status, m)) => r matches Err(e) && refuses(e, status, m),
        },
{
    match require_client(env) {
        Err(e) => Err(e),
        Ok(client) => match store {
            None => Err(secrets_unavailable()),
            Some(Err(e)) => Err(refusal(400, e.as_str())),
            Some(Ok(_)) => Ok(client),
        },
    }
}

/// Why a user is not sent to GitHub.
pub enum AuthorizeError {
    Refused(Refusal),
    /// The address could not be made.
    NoUrl,
}

/// Whether `r` sends a user to GitHub under the state `state_token`, at the time `now`. The
/// user is then among those who are awaited back, of whom those who are long gone are
/// forgotten.
pub open spec fn authorizes(
    env: GithubEnv,
    config: Config,
    store: Option<Result<(), String>>,
    before: Map<Seq<char>, PendingGithubOAuth>,
    user: AuthUser,
    state_token: Seq<char>,
    now: Moment,
    after: Map<Seq<char>, PendingGithubOAuth>,
    r: Result<GithubOAuthAuthorizeResponse, AuthorizeError>,
) -> bool {
    match ready_client(env, store) {
        Err((status, m)) => {
            &&& r matches Err(AuthorizeError::Refused(e)) && refuses(e, status, m)
            &&& after == before
        },
        Ok((client_id, _)) => {
            let redirect = redirect_of(env, config.host@, config.port);
            let url = url_with_query(
                GITHUB_AUTHORIZE_URL@,
                authorize_params(client_id, redirect, scopes_of(env), state_token),
            );
            &&& awaits(before, state_token, after[state_token], after)
            &&& after[state_token].user == user
            &&& after[state_token].redirect_uri@ == redirect
            &&& after[state_token].created_at == now
            &&& match url {
                Some(u) => r matches Ok(a) && a.url@ == u && a.state@ == state_token
                    && a.redirect_uri@ == redirect && a.scopes@ == scopes_of(env),
                None => r matches Err(AuthorizeError::NoUrl),
            }
        },
    }
}

/// Sends a user to GitHub under the fresh state `state_token`, at the time `now`.
pub fn github_oauth_authorize_with(
    env: &GithubEnv,
    config: &Config,
    store: &Option<Result<(), String>>,
    pending: &mut PendingAuthorizations,
    user: AuthUser,
    state_token: String,
    now: Moment,
) -> (r: Result<GithubOAuthAuthorizeResponse, AuthorizeError>)
    ensures
        authorizes(
            *env,
            *config,
            *store,
            old(pending)@,
            user,
            state_token@,
            now,
            final(pending)@,
            r,
        ),
{
    let (client_id, _client_secret) = match check_ready(env, store) {
        Ok(c) => c,
        Err(e) => {
            return Err(AuthorizeError::Refused(e));
        },
    };
    let redirect_uri = github_oauth_redirect_uri(env, config);
    let scopes = github_oauth_scopes(env);
    pending.begin(state_token.clone(), user, redirect_uri.clone(), now);
    let query = authorize_query(
        client_id.as_str(),
        redirect_uri.as_str(),
        scopes.as_str(),
        state_token.as_str(),
    );
    match build_url(GITHUB_AUTHORIZE_URL, &query) {
        Some(url) => Ok(
            GithubOAuthAuthorizeResponse { url, state: state_token, redirect_uri, scopes },
        ),
        None => Err(AuthorizeError::NoUrl),
    }
}

/// Sends a user to GitHub now, under a random state.
pub fn github_oauth_authorize(
    env: &GithubEnv,
    config: &Config,
    store: &Option<Result<(), String>>,
    pending: &mut PendingAuthorizations,
    user: AuthUser,
) -> (r: Result<GithubOAuthAuthorizeResponse, AuthorizeError>)
    ensures
        exists|id: u128, now: Moment|
            is_present(now) && #[trigger] authorizes(
                *env,
                *config,
                *store,
                old(pending)@,
                user,
                uuid_text(id),
                now,
                final(pending)@,
                r,
            ),
{
    let id = new_uuid();
    let (now, _text) = utc_now();
    let state_token = uuid_to_string(id);
    let r = github_oauth_authorize_with(env, config, store, pending, user, state_token, now);
    assert(authorizes(
        *env,
        *config,
        *store,
        old(pending)@,
        user,
        uuid_text(id),
        now,
        pending@,
        r,
    ));
    r
}

// ---------------------------------------------------------------------------
// Callback
// ---------------------------------------------------------------------------

/// How a character is written in HTML.
pub open spec fn html_char(c: char) -> Seq<char> {
    if c == '&' {
        "&amp;"@
    } else if c == '<' {
        "&lt;"@
    } else if c == '>' {
        "&gt;"@
    } else if c == '"' {
        "&quot;"@
    } else if c == '\'' {
        "&#39;"@
    } else {
        seq![c]
    }
}

/// How a text is written in HTML.
pub open spec fn html_text(s: Seq<char>) -> Seq<char>
    decreases s.len(),
{
    if s.len() == 0 {
        Seq::empty()
    } else {
        html_text(s.drop_last()) + html_char(s.last())
    }
}

pub fn escape_html(input: &str) -> (r: String)
    ensures
        r@ == html_text(input@),
{
    let v = chars_of(input);
    let mut out = String::new();
    let mut i: usize = 0;
    while i < v.len()
        invariant
            i <= v@.len(),
            out@ == html_text(v@.take(i as int)),
        decreases v@.len() - i,
    {
        assert(v@.take(i + 1).drop_last() == v@.take(i as int));
        let c = v[i];
        if c == '&' {
            out.push_str("&amp;");
        } else if c == '<' {
            out.push_str("&lt;");
        } else if c == '>' {
            out.push_str("&gt;");
        } else if c == '"' {
            out.push_str("&quot;");
        } else if c == '\'' {
            out.push_str("&#39;");
        } else {
            out.push(c);
        }
        assert(out@ =~= html_text(v@.take(i as int)) + html_char(c));
        i += 1;
    }
    assert(v@.take(i as int) == v@);
    out
}

/// Whether `c` means something in HTML.
pub open spec fn is_markup(c: char) -> bool {
    c == '<' || c == '>' || c == '"' || c == '\''
}

/// Escaped text holds no markup: neither a tag nor the end of an attribute.
pub proof fn law_escaped_text_is_inert(s: Seq<char>)
    ensures
        forall|i: int| 0 <= i < html_text(s).len() ==> !is_markup(#[trigger] html_text(s)[i]),
    decreases s.len(),
{
    if s.len() > 0 {
        reveal_strlit("&amp;");
        reveal_strlit("&lt;");
        reveal_strlit("&gt;");
        reveal_strlit("&quot;");
        reveal_strlit("&#39;");
        law_escaped_text_is_inert(s.drop_last());
        let a = html_text(s.drop_last());
        let e = html_char(s.last());
        assert forall|i: int| 0 <= i < html_text(s).len() implies !is_markup(
            #[trigger] html_text(s)[i],
        ) by {
            if i < a.len() {
                assert(html_text(s)[i] == a[i]);
            } else {
                assert(html_text(s)[i] == e[i - a.len()]);
            }
        }
    }
}

pub const PAGE_HEAD: &'static str = r#"<!doctype html>
<html>
<head><meta charset="utf-8"><meta name="viewport" content="width=device-width, initial-scale=1"><title>"#;

pub const PAGE_BODY: &'static str = r#"</title></head>
<body style="margin:0;background:#121214;color:white;font-family:-apple-system,BlinkMacSystemFont,'Segoe UI',sans-serif;display:grid;min-height:100vh;place-items:center">
  <main style="max-width:440px;padding:32px;text-align:center">
    <div style="width:48px;height:48px;border-radius:999px;background:"#;

pub const PAGE_TITLE: &'static str = r#";margin:0 auto 20px"></div>
    <h1 style="font-size:22px;margin:0 0 10px">"#;

pub const PAGE_MESSAGE: &'static str = r#"</h1>
    <p style="color:rgba(255,255,255,.68);line-height:1.5">"#;

pub const PAGE_END: &'static str = r#"</p>
    <button onclick="window.close()" style="margin-top:18px;border:1px solid rgba(255,255,255,.14);background:rgba(255,255,255,.06);color:white;border-radius:8px;padding:10px 14px">Close</button>
  </main>
</body>
</html>"#;

/// The page that a user sees on coming back from GitHub.
pub open spec fn callback_page(title: Seq<char>, message: Seq<char>, success: bool) -> Seq<char> {
    let color = if success {
        "#34d399"@
    } else {
        "#f87171"@
    };
    PAGE_HEAD@ + html_text(title) + PAGE_BODY@ + color + PAGE_TITLE@ + html_text(title)
        + PAGE_MESSAGE@ + html_text(message) + PAGE_END@
}

pub fn github_callback_html(title: &str, message: &str, success: bool) -> (r: String)
    ensures
        r@ == callback_page(title@, message@, success),
{
    let color = if success {
        "#34d399"
    } else {
        "#f87171"
    };
    let title = escape_html(title);
    let message = escape_html(message);
    let mut out = cat3(PAGE_HEAD, title.as_str(), PAGE_BODY);
    out.push_str(color);
    out.push_str(PAGE_TITLE);
    out.push_str(title.as_str());
    out.push_str(PAGE_MESSAGE);
    out.push_str(message.as_str());
    out.push_str(PAGE_END);
    out
}

/// What a user brings back from GitHub.
pub struct GithubOAuthCallbackQuery {
    pub code: Option<String>,
    pub state: Option<String>,
    pub error: Option<String>,
    pub error_description: Option<String>,
}

/// What is done with a user who comes back from GitHub.
pub enum CallbackStart {
    /// The user sees this page.
    Page(String),
    /// The code is exchanged for a token.
    Exchange { code: String, state: String },
}

/// The message to a user who refused.
pub open spec fn cancel_message(error: Seq<char>, description: Option<Seq<char>>) -> Seq<char> {
    trimmed(
        error + " "@ + match description {
            Some(d) => d,
            None => Seq::empty(),
        },
    )
}

/// What is done with a user who comes back from GitHub.
pub fn callback_start(query: GithubOAuthCallbackQuery) -> (r: Result<CallbackStart, Refusal>)
    ensures
        match query.error {
            Some(error) => r matches Ok(CallbackStart::Page(p)) && p@ == callback_page(
                "GitHub connection cancelled"@,
                cancel_message(error@, opt_string(query.error_description)),
                false,
            ),
            None => match (query.code, query.state) {
                (None, _) => r matches Err(e) && refuses(e, 400, "Missing OAuth code"@),
                (Some(_), None) => r matches Err(e) && refuses(e, 400, "Missing OAuth state"@),
                (Some(c), Some(s)) => r matches Ok(CallbackStart::Exchange { code, state }) && code
                    == c && state == s,
            },
        },
{
    if let Some(error) = query.error {
        let description = match query.error_description {
            Some(d) => d,
            None => String::new(),
        };
        let message = cat3(error.as_str(), " ", description.as_str());
        let page = github_callback_html(
            "GitHub connection cancelled",
            trim(message.as_str()),
            false,
        );
        return Ok(CallbackStart::Page(page));
    }
    match query.code {
        None => Err(refusal(400, "Missing OAuth code")),
        Some(code) => match query.state {
            None => Err(refusal(400, "Missing OAuth state")),
            Some(state) => Ok(CallbackStart::Exchange { code, state }),
        },
    }
}

/// What is done with a user who comes back from GitHub, once it is known who that is.
pub enum CallbackStep {
    /// The user sees this page.
    Page(String),
    /// The code is exchanged for a token of this user.
    Exchange { code: String, pending: PendingGithubOAuth },
}

/// Receives a user who comes back from GitHub. A user who refused sees a page; one who
/// brings a code is found by the state, which counts once.
pub fn github_oauth_callback(
    query: GithubOAuthCallbackQuery,
    pending: &mut PendingAuthorizations,
) -> (r: Result<CallbackStep, Refusal>)
    ensures
        match query.error {
            Some(error) => {
                &&& final(pending)@ == old(pending)@
                &&& r matches Ok(CallbackStep::Page(p)) && p@ == callback_page(
                    "GitHub connection cancelled"@,
                    cancel_message(error@, opt_string(query.error_description)),
                    false,
                )
            },
            None => match (query.code, query.state) {
                (None, _) => {
                    &&& final(pending)@ == old(pending)@
                    &&& r matches Err(e) && refuses(e, 400, "Missing OAuth code"@)
                },
                (Some(_), None) => {
                    &&& final(pending)@ == old(pending)@
                    &&& r matches Err(e) && refuses(e, 400, "Missing OAuth state"@)
                },
                (Some(c), Some(s)) => {
                    &&& final(pending)@ == old(pending)@.remove(s@)
                    &&& if old(pending)@.dom().contains(s@) {
                        r matches Ok(CallbackStep::Exchange { code, pending: p }) && code == c && p
                            == old(pending)@[s@]
                    } else {
                        r matches Err(e) && refuses(e, 400, "OAuth state is invalid or expired"@)
                    }
                },
            },
        },
{
    match callback_start(query) {
        Err(e) => Err(e),
        Ok(CallbackStart::Page(p)) => Ok(CallbackStep::Page(p)),
        Ok(CallbackStart::Exchange { code, state }) => match pending.take(state.as_str()) {
            Ok(p) => Ok(CallbackStep::Exchange { code, pending: p }),
            Err(e) => Err(e),
        },
    }
}

/// What GitHub is sent to exchange a code for a token.
pub fn token_form(client_id: &str, client_secret: &str, code: &str, redirect_uri: &str) -> (r: Vec<
    (String, String),
>)
    ensures
        pairs_view(r@) == seq![
            ("client_id"@, client_id@),
            ("client_secret"@, client_secret@),
            ("code"@, code@),
            ("redirect_uri"@, redirect_uri@),
        ],
{
    let mut v: Vec<(String, String)> = Vec::new();
    v.push(("client_id".to_string(), client_id.to_string()));
    v.push(("client_secret".to_string(), client_secret.to_string()));
    v.push(("code".to_string(), code.to_string()));
    v.push(("redirect_uri".to_string(), redirect_uri.to_string()));
    assert(pairs_view(v@) =~= seq![
        ("client_id"@, client_id@),
        ("client_secret"@, client_secret@),
        ("code"@, code@),
        ("redirect_uri"@, redirect_uri@),
    ]);
    v
}

/// The reply of GitHub to the exchange of a code.
pub struct GithubTokenResponse {
    pub access_token: Option<String>,
    pub token_type: Option<String>,
    pub scope: Option<String>,
    pub expires_in: Option<i64>,
    pub refresh_token: Option<String>,
    pub refresh_token_expires_in: Option<i64>,
    pub error: Option<String>,
    pub error_description: Option<String>,
}

/// The access token in a reply of GitHub, or what is wrong with it.
pub open spec fn token_in(reply: GithubTokenResponse) -> Result<Seq<char>, Seq<char>> {
    match reply.error {
        Some(error) => Err(
            "GitHub token exchange failed: "@ + error@ + " "@ + match reply.error_description {
                Some(d) => d@,
                None => Seq::empty(),
            },
        ),
        None => match reply.access_token {
            Some(t) => Ok(t@),
            None => Err("GitHub did not return an access token"@),
        },
    }
}

/// The access token in a reply of GitHub, or the refusal.
pub fn granted_token(reply: &GithubTokenResponse) -> (r: Result<String, Refusal>)
    ensures
        match token_in(*reply) {
            Ok(t) => r matches Ok(v) && v@ == t,
            Err(m) => r matches Err(e) && refuses(e, 502, m),
        },
{
    if let Some(error) = &reply.error {
        let description = match &reply.error_description {
            Some(d) => d.clone(),
            None => String::new(),
        };
        let mut m = cat3("GitHub token exchange failed: ", error.as_str(), " ");
        m.push_str(description.as_str());
        return Err(refusal(502, m.as_str()));
    }
    match &reply.access_token {
        Some(t) => Ok(t.clone()),
        None => Err(refusal(502, "GitHub did not return an access token")),
    }
}

/// What came of exchanging a code.
pub enum ExchangeReply {
    Reply(GithubTokenResponse),
    /// There was no reply, or it could not be read.
    Failed(String),
    /// GitHub replied with this error status and text.
    HttpError { status: String, text: String },
}

/// The access token that came of exchanging a code, with the reply that it came in, or the
/// refusal.
pub fn after_exchange(reply: ExchangeReply) -> (r: Result<
    (String, GithubTokenResponse),
    Refusal,
>)
    ensures
        match reply {
            ExchangeReply::Failed(m) => r matches Err(e) && refuses(e, 500, m@),
            ExchangeReply::HttpError { status, text } => r matches Err(e) && refuses(
                e,
                502,
                "GitHub token exchange failed ("@ + status@ + "): "@ + text@,
            ),
            ExchangeReply::Reply(t) => match token_in(t) {
                Ok(token) => r matches Ok(g) && g.0@ == token && g.1 == t,
                Err(m) => r matches Err(e) && refuses(e, 502, m),
            },
        },
{
    match reply {
        ExchangeReply::Failed(m) => Err(refusal(500, m.as_str())),
        ExchangeReply::HttpError { status, text } => {
            let mut m = cat3("GitHub token exchange failed (", status.as_str(), "): ");
            m.push_str(text.as_str());
            Err(refusal(502, m.as_str()))
        },
        ExchangeReply::Reply(t) => match granted_token(&t) {
            Ok(token) => Ok((token, t)),
            Err(e) => Err(e),
        },
    }
}

pub struct GithubUserResponse {
    pub id: i64,
    pub login: String,
    pub name: Option<String>,
    pub email: Option<String>,
}

pub struct GithubEmailResponse {
    pub email: String,
    pub primary: bool,
    pub verified: bool,
}

/// What came of asking GitHub for a user.
pub enum UserReply {
    User(GithubUserResponse),
    /// There was no reply.
    Failed(String),
    /// GitHub replied with this error status and text.
    HttpError { status: String, text: String },
    /// The reply could not be read.
    Unreadable(String),
}

/// The user of an access token, or the refusal.
pub fn after_user_lookup(reply: UserReply) -> (r: Result<GithubUserResponse, Refusal>)
    ensures
        match reply {
            UserReply::User(u) => r == Ok::<GithubUserResponse, Refusal>(u),
            UserReply::Failed(m) => r matches Err(e) && refuses(
                e,
                502,
                "Failed to fetch GitHub user: "@ + m@,
            ),
            UserReply::HttpError { status, text } => r matches Err(e) && refuses(
                e,
                502,
                "GitHub user fetch failed ("@ + status@ + "): "@ + text@,
            ),
            UserReply::Unreadable(m) => r matches Err(e) && refuses(
                e,
                502,
                "Failed to parse GitHub user response: "@ + m@,
            ),
        },
{
    match reply {
        UserReply::User(u) => Ok(u),
        UserReply::Failed(m) => {
            let m = cat2("Failed to fetch GitHub user: ", m.as_str());
            Err(refusal(502, m.as_str()))
        },
        UserReply::HttpError { status, text } => {
            let mut m = cat3("GitHub user fetch failed (", status.as_str(), "): ");
            m.push_str(text.as_str());
            Err(refusal(502, m.as_str()))
        },
        UserReply::Unreadable(m) => {
            let m = cat2("Failed to parse GitHub user response: ", m.as_str());
            Err(refusal(502, m.as_str()))
        },
    }
}

/// A text that is not blank.
pub open spec fn unless_blank(o: Option<Seq<char>>) -> Option<Seq<char>> {
    match o {
        Some(s) => if blank(s) {
            None
        } else {
            Some(s)
        },
        None => None,
    }
}

/// Whether the address of a GitHub user has to be asked for.
pub fn needs_email(user: &GithubUserResponse) -> (r: bool)
    ensures
        r == (unless_blank(opt_string(user.email)) is None),
{
    match &user.email {
        Some(e) => is_blank(e.as_str()),
        None => true,
    }
}

/// The first address that is primary and verified.
pub open spec fn primary_of(emails: Seq<GithubEmailResponse>) -> Option<Seq<char>>
    decreases emails.len(),
{
    if emails.len() == 0 {
        None
    } else if emails[0].primary && emails[0].verified {
        Some(emails[0].email@)
    } else {
        primary_of(emails.drop_first())
    }
}

pub fn primary_email(emails: &Vec<GithubEmailResponse>) -> (r: Option<String>)
    ensures
        opt_string(r) == primary_of(emails@),
{
    let mut i: usize = 0;
    assert(emails@.skip(0) == emails@);
    while i < emails.len()
        invariant
            i <= emails@.len(),
            primary_of(emails@) == primary_of(emails@.skip(i as int)),
        decreases emails@.len() - i,
    {
        assert(emails@.skip(i as int).drop_first() == emails@.skip(i + 1));
        if emails[i].primary && emails[i].verified {
            return Some(emails[i].email.clone());
        }
        i += 1;
    }
    None
}

/// The address of a GitHub user: the one that the user shows, else the primary one among
/// those that were asked for, where that was answered.
pub open spec fn email_of(
    user: GithubUserResponse,
    emails: Option<Seq<GithubEmailResponse>>,
) -> Option<Seq<char>> {
    match unless_blank(opt_string(user.email)) {
        Some(e) => Some(e),
        None => match emails {
            Some(v) => primary_of(v),
            None => None,
        },
    }
}

pub fn github_email(user: &GithubUserResponse, emails: &Option<Vec<GithubEmailResponse>>) -> (r:
    Option<String>)
    ensures
        opt_string(r) == email_of(
            *user,
            match *emails {
                Some(v) => Some(v@),
                None => None,
            },
        ),
{
    if !needs_email(user) {
        return clone_opt(&user.email);
    }
    match emails {
        Some(v) => primary_email(v),
        None => None,
    }
}

// ---------------------------------------------------------------------------
// Storage
// ---------------------------------------------------------------------------

/// What a secret is.
#[derive(Debug, Clone, Copy, PartialEq, Eq, Structural)]
pub enum SecretKind {
    AccessToken,
    RefreshToken,
}

/// A secret that is to be stored.
pub struct SecretWrite {
    pub key: String,
    pub value: String,
    pub kind: SecretKind,
    pub expires_at: Option<i64>,
    pub labels: TextMap<String>,
}

/// Whether a time that lies `seconds` after `now` is a date.
pub open spec fn is_date_after(now: i64, seconds: Option<i64>) -> bool {
    seconds matches Some(s) ==> MIN_TIMESTAMP <= now + s <= MAX_TIMESTAMP
}

/// The time that lies `seconds` after `now`.
pub open spec fn time_after(now: i64, seconds: Option<i64>) -> Option<int> {
    match seconds {
        Some(s) => Some(now + s),
        None => None,
    }
}

/// A map with one more text, unless it is blank.
pub open spec fn with_text(
    m: Map<Seq<char>, Seq<char>>,
    key: Seq<char>,
    value: Option<Seq<char>>,
) -> Map<Seq<char>, Seq<char>> {
    match unless_blank(value) {
        Some(v) => m.insert(key, v),
        None => m,
    }
}

/// The labels of an access token.
pub open spec fn access_labels(
    user: UserView,
    github: GithubUserResponse,
    email: Option<Seq<char>>,
    reply: GithubTokenResponse,
    connected_at: Seq<char>,
) -> Map<Seq<char>, Seq<char>> {
    let base = Map::<Seq<char>, Seq<char>>::empty().insert("provider"@, "github"@).insert(
        "user_id"@,
        user.id,
    ).insert("username"@, user.username).insert("github_login"@, github.login@).insert(
        "github_user_id"@,
        signed_decimal(github.id as int),
    ).insert("connected_at"@, connected_at);
    let named = with_text(base, "github_name"@, opt_string(github.name));
    let mailed = with_text(named, "github_email"@, email);
    let scoped = with_text(mailed, "scopes"@, opt_string(reply.scope));
    with_text(scoped, "token_type"@, opt_string(reply.token_type))
}

/// The labels of a refresh token.
pub open spec fn refresh_labels(user: UserView, github: GithubUserResponse) -> Map<
    Seq<char>,
    Seq<char>,
> {
    Map::<Seq<char>, Seq<char>>::empty().insert("provider"@, "github"@).insert(
        "user_id"@,
        user.id,
    ).insert("github_login"@, github.login@)
}

fn put(labels: &mut TextMap<String>, key: &str, value: &str)
    ensures
        texts(final(labels)@) == texts(old(labels)@).insert(key@, value@),
{
    let v = value.to_string();
    proof {
        lemma_texts_insert(labels@, key@, v);
    }
    labels.insert(key.to_string(), v);
}

fn put_unless_blank(labels: &mut TextMap<String>, key: &str, value: &Option<String>)
    ensures
        texts(final(labels)@) == with_text(texts(old(labels)@), key@, opt_string(*value)),
{
    if let Some(v) = value {
        if !is_blank(v.as_str()) {
            put(labels, key, v.as_str());
        }
    }
}

fn later(now: i64, seconds: Option<i64>) -> (r: Option<i64>)
    requires
        is_date_after(now, seconds),
    ensures
        match r {
            Some(t) => time_after(now, seconds) == Some(t as int),
            None => seconds is None,
        },
{
    match seconds {
        Some(s) => Some(now + s),
        None => None,
    }
}

/// Whether `w` stores an access token.
pub open spec fn writes_access(
    w: SecretWrite,
    safe_user_id: Seq<char>,
    access_token: Seq<char>,
    expires_at: Option<int>,
    labels: Map<Seq<char>, Seq<char>>,
) -> bool {
    &&& w.key@ == secret_key(safe_user_id, GITHUB_ACCESS_TOKEN_SUFFIX@)
    &&& w.value@ == access_token
    &&& w.kind == SecretKind::AccessToken
    &&& match w.expires_at {
        Some(t) => expires_at == Some(t as int),
        None => expires_at is None,
    }
    &&& texts(w.labels@) == labels
}

/// Whether `w` stores a refresh token.
pub open spec fn writes_refresh(
    w: SecretWrite,
    safe_user_id: Seq<char>,
    refresh_token: Seq<char>,
    expires_at: Option<int>,
    labels: Map<Seq<char>, Seq<char>>,
) -> bool {
    &&& w.key@ == secret_key(safe_user_id, GITHUB_REFRESH_TOKEN_SUFFIX@)
    &&& w.value@ == refresh_token
    &&& w.kind == SecretKind::RefreshToken
    &&& match w.expires_at {
        Some(t) => expires_at == Some(t as int),
        None => expires_at is None,
    }
    &&& texts(w.labels@) == labels
}

/// Whether `writes` is what is stored of a connection that was made at the time `now`, which
/// is written `connected_at`: the access token, and the refresh token where there is one.
pub open spec fn stores(
    user: UserView,
    safe_user_id: Seq<char>,
    access_token: Seq<char>,
    reply: GithubTokenResponse,
    github_user: GithubUserResponse,
    email: Option<Seq<char>>,
    now: i64,
    connected_at: Seq<char>,
    writes: Seq<SecretWrite>,
) -> bool {
    &&& writes.len() == if unless_blank(opt_string(reply.refresh_token)) is Some {
        2int
    } else {
        1
    }
    &&& writes_access(
        writes[0],
        safe_user_id,
        access_token,
        time_after(now, reply.expires_in),
        access_labels(user, github_user, email, reply, connected_at),
    )
    &&& unless_blank(opt_string(reply.refresh_token)) matches Some(t) ==> writes_refresh(
        writes[1],
        safe_user_id,
        t,
        time_after(now, reply.refresh_token_expires_in),
        refresh_labels(user, github_user),
    )
}

/// What is stored of a connection that was made at the time `now`, which is written
/// `connected_at`.
pub fn store_github_oauth_at(
    user: &AuthUser,
    safe_user_id: &str,
    access_token: &str,
    reply: &GithubTokenResponse,
    github_user: &GithubUserResponse,
    email: &Option<String>,
    now: i64,
    connected_at: &str,
) -> (r: Vec<SecretWrite>)
    requires
        is_date_after(now, reply.expires_in),
        is_date_after(now, reply.refresh_token_expires_in),
    ensures
        stores(
            user@,
            safe_user_id@,
            access_token@,
            *reply,
            *github_user,
            opt_string(*email),
            now,
            connected_at@,
            r@,
        ),
{
    let mut labels: TextMap<String> = TextMap::new();
    assert(texts(labels@) =~= Map::<Seq<char>, Seq<char>>::empty());
    let github_id = i64_text(github_user.id);
    put(&mut labels, "provider", "github");
    put(&mut labels, "user_id", user.id.as_str());
    put(&mut labels, "username", user.username.as_str());
    put(&mut labels, "github_login", github_user.login.as_str());
    put(&mut labels, "github_user_id", github_id.as_str());
    put(&mut labels, "connected_at", connected_at);
    put_unless_blank(&mut labels, "github_name", &github_user.name);
    put_unless_blank(&mut labels, "github_email", email);
    put_unless_blank(&mut labels, "scopes", &reply.scope);
    put_unless_blank(&mut labels, "token_type", &reply.token_type);
    let mut out: Vec<SecretWrite> = Vec::new();
    out.push(
        SecretWrite {
            key: github_secret_key(safe_user_id, GITHUB_ACCESS_TOKEN_SUFFIX),
            value: access_token.to_string(),
            kind: SecretKind::AccessToken,
            expires_at: later(now, reply.expires_in),
            labels,
        },
    );
    if let Some(token) = &reply.refresh_token {
        if !is_blank(token.as_str()) {
            let mut labels: TextMap<String> = TextMap::new();
            assert(texts(labels@) =~= Map::<Seq<char>, Seq<char>>::empty());
            put(&mut labels, "provider", "github");
            put(&mut labels, "user_id", user.id.as_str());
            put(&mut labels, "github_login", github_user.login.as_str());
            out.push(
                SecretWrite {
                    key: github_secret_key(safe_user_id, GITHUB_REFRESH_TOKEN_SUFFIX),
                    value: token.clone(),
                    kind: SecretKind::RefreshToken,
                    expires_at: later(now, reply.refresh_token_expires_in),
                    labels,
                },
            );
        }
    }
    out
}

fn check_date_after(now: i64, seconds: Option<i64>) -> (r: bool)
    ensures
        r == is_date_after(now, seconds),
{
    match seconds {
        Some(s) => {
            let t: i128 = (now as i128) + (s as i128);
            MIN_TIMESTAMP as i128 <= t && t <= MAX_TIMESTAMP as i128
        },
        None => true,
    }
}

/// What is stored of a connection that is made now; nothing where a token expires after the
/// last date.
pub fn store_github_oauth(
    user: &AuthUser,
    safe_user_id: &str,
    access_token: &str,
    reply: &GithubTokenResponse,
    github_user: &GithubUserResponse,
    email: &Option<String>,
) -> (r: Option<Vec<SecretWrite>>)
    ensures
        exists|now: Moment|
            #![trigger rfc3339(now.seconds, now.nanos)]
            is_present(now) && match r {
                Some(writes) => stores(
                    user@,
                    safe_user_id@,
                    access_token@,
                    *reply,
                    *github_user,
                    opt_string(*email),
                    now.seconds,
                    rfc3339(now.seconds, now.nanos),
                    writes@,
                ),
                None => !is_date_after(now.seconds, reply.expires_in) || !is_date_after(
                    now.seconds,
                    reply.refresh_token_expires_in,
                ),
            },
{
    let (now, text) = utc_now();
    assert(text@ == rfc3339(now.seconds, now.nanos));
    if !check_date_after(now.seconds, reply.expires_in) || !check_date_after(
        now.seconds,
        reply.refresh_token_expires_in,
    ) {
        return None;
    }
    Some(
        store_github_oauth_at(
            user,
            safe_user_id,
            access_token,
            reply,
            github_user,
            email,
            now.seconds,
            text.as_str(),
        ),
    )
}

/// What is said where a secret could not be stored.
pub open spec fn store_failure_text(kind: SecretKind, error: Seq<char>) -> Seq<char> {
    match kind {
        SecretKind::AccessToken => "Failed to store GitHub access token: "@ + error,
        SecretKind::RefreshToken => "Failed to store GitHub refresh token: "@ + error,
    }
}

/// The refusal where a secret could not be stored.
pub fn store_failure(kind: SecretKind, error: &str) -> (r: Refusal)
    ensures
        refuses(r, 500, store_failure_text(kind, error@)),
{
    let m = match kind {
        SecretKind::AccessToken => cat2("Failed to store GitHub access token: ", error),
        SecretKind::RefreshToken => cat2("Failed to store GitHub refresh token: ", error),
    };
    refusal(500, m.as_str())
}

/// The page that ends a connection.
pub fn connected_page() -> (r: String)
    ensures
        r@ == callback_page(
            "GitHub connected"@,
            "You can close this window and return to sandboxed.sh."@,
            true,
        ),
{
    github_callback_html(
        "GitHub connected",
        "You can close this window and return to sandboxed.sh.",
        true,
    )
}

/// The secrets that are deleted when a user is disconnected.
pub fn github_oauth_disconnect(safe_user_id: &str) -> (r: Vec<String>)
    ensures
        r.deep_view() == seq![
            secret_key(safe_user_id@, GITHUB_ACCESS_TOKEN_SUFFIX@),
            secret_key(safe_user_id@, GITHUB_REFRESH_TOKEN_SUFFIX@),
        ],
{
    let mut keys: Vec<String> = Vec::new();
    keys.push(github_secret_key(safe_user_id, GITHUB_ACCESS_TOKEN_SUFFIX));
    keys.push(github_secret_key(safe_user_id, GITHUB_REFRESH_TOKEN_SUFFIX));
    assert(keys.deep_view() =~= seq![
        secret_key(safe_user_id@, GITHUB_ACCESS_TOKEN_SUFFIX@),
        secret_key(safe_user_id@, GITHUB_REFRESH_TOKEN_SUFFIX@),
    ]);
    keys
}

/// Disconnecting a user deletes every secret that connecting the user can store.
pub proof fn law_disconnect_deletes_all(
    w: SecretWrite,
    safe_user_id: Seq<char>,
    token: Seq<char>,
    expires_at: Option<int>,
    labels: Map<Seq<char>, Seq<char>>,
)
    requires
        writes_access(w, safe_user_id, token, expires_at, labels) || writes_refresh(
            w,
            safe_user_id,
            token,
            expires_at,
            labels,
        ),
    ensures
        seq![
            secret_key(safe_user_id, GITHUB_ACCESS_TOKEN_SUFFIX@),
            secret_key(safe_user_id, GITHUB_REFRESH_TOKEN_SUFFIX@),
        ].contains(w.key@),
{
    let keys = seq![
        secret_key(safe_user_id, GITHUB_ACCESS_TOKEN_SUFFIX@),
        secret_key(safe_user_id, GITHUB_REFRESH_TOKEN_SUFFIX@),
    ];
    assert(keys[0] == w.key@ || keys[1] == w.key@);
}

// ---------------------------------------------------------------------------
// Laws of the connection
// ---------------------------------------------------------------------------

/// What is configured: without whitespace at the ends, and nothing where it is blank. The
/// scopes have a default.
pub proof fn law_configuration_is_read(env: GithubEnv, scopes: String)
    ensures
        configured(env) == (env.client_id is Some && trimmed(env.client_id->0@).len() > 0
            && env.client_secret is Some && trimmed(env.client_secret->0@).len() > 0),
        env.scopes == Some(scopes) && trimmed(scopes@).len() > 0 ==> scopes_of(env) == trimmed(
            scopes@,
        ),
        env.scopes is None ==> scopes_of(env) == "repo workflow read:user user:email"@,
{
}

/// Where GitHub sends a user back to: the address that is configured, else one under the
/// public address, else one under the address of the server.
pub proof fn law_where_users_come_back(
    env: GithubEnv,
    uri: String,
    url: String,
    host: Seq<char>,
    port: u16,
)
    ensures
        env.redirect_uri == Some(uri) && trimmed(uri@).len() > 0 ==> redirect_of(env, host, port)
            == trimmed(uri@),
        env.redirect_uri is None && env.public_url == Some(url) && trimmed(url@).len() > 0
            ==> redirect_of(env, host, port) == trim_back(trimmed(url@), CharSet::One('/'))
            + "/api/auth/github/callback"@,
        env.redirect_uri is None && env.public_url is None ==> redirect_of(env, host, port)
            == "http://"@ + host + ":"@ + decimal(port as nat) + "/api/auth/github/callback"@,
{
}

/// Whoever is to be connected needs a client, its secret and a store that can be used.
pub proof fn law_who_can_be_connected(env: GithubEnv, store: Option<Result<(), String>>)
    ensures
        ({
            let id = env.client_id is Some && trimmed(env.client_id->0@).len() > 0;
            let secret = env.client_secret is Some && trimmed(env.client_secret->0@).len() > 0;
            let r = ready_client(env, store);
            &&& !id ==> r == Err::<(Seq<char>, Seq<char>), (u16, Seq<char>)>(
                (400u16, "GITHUB_OAUTH_CLIENT_ID is not configured"@),
            )
            &&& id && !secret ==> r == Err::<(Seq<char>, Seq<char>), (u16, Seq<char>)>(
                (400u16, "GITHUB_OAUTH_CLIENT_SECRET is not configured"@),
            )
            &&& id && secret && store is None ==> (r matches Err(e) && e.0 == 503)
            &&& id && secret ==> (store matches Some(Err(m)) ==> r == Err::<
                (Seq<char>, Seq<char>),
                (u16, Seq<char>),
            >((400u16, m@)))
            &&& id && secret ==> (store matches Some(Ok(_)) ==> r == Ok::<
                (Seq<char>, Seq<char>),
                (u16, Seq<char>),
            >((trimmed(env.client_id->0@), trimmed(env.client_secret->0@))))
        }),
{
}

/// GitHub is told who asks, for what, where to send the user back and under which state.
pub proof fn law_github_is_told(
    env: GithubEnv,
    config: Config,
    store: Option<Result<(), String>>,
    before: Map<Seq<char>, PendingGithubOAuth>,
    user: AuthUser,
    state: Seq<char>,
    other: Seq<char>,
    now: Moment,
    after: Map<Seq<char>, PendingGithubOAuth>,
    r: Result<GithubOAuthAuthorizeResponse, AuthorizeError>,
)
    requires
        authorizes(env, config, store, before, user, state, now, after, r),
        other != state,
    ensures
        match ready_client(env, store) {
            Err((status, m)) => r is Err && r->Err_0 is Refused && r->Err_0->Refused_0.status
                == status && r->Err_0->Refused_0.message@ == m && after == before,
            Ok((client_id, _)) => {
                let back = redirect_of(env, config.host@, config.port);
                &&& after.dom().contains(state) && after[state].user == user
                    && after[state].redirect_uri@ == back && after[state].created_at == now
                &&& after.dom().contains(other) == (before.dom().contains(other)
                    && before[other].created_at.at() >= now.at() - 900_000_000_000)
                &&& after.dom().contains(other) ==> after[other] == before[other]
                &&& r matches Ok(a) ==> {
                    &&& a.state@ == state && a.redirect_uri@ == back && a.scopes@ == scopes_of(env)
                    &&& url_with_query(
                        "https://github.com/login/oauth/authorize"@,
                        seq![
                            ("client_id"@, client_id),
                            ("redirect_uri"@, back),
                            ("scope"@, scopes_of(env)),
                            ("state"@, state),
                            ("allow_signup"@, "true"@),
                        ],
                    ) == Some(a.url@)
                }
            },
        },
{
}

/// The secret of a key is the first that has it.
pub proof fn law_secret_of_a_key(
    before: Seq<SecretInfo>,
    s: SecretInfo,
    after: Seq<SecretInfo>,
    key: Seq<char>,
)
    requires
        s.key@ == key,
        forall|i: int| 0 <= i < before.len() ==> (#[trigger] before[i]).key@ != key,
    ensures
        secret_with_key(before + seq![s] + after, key) == Some(s),
        secret_with_key(before, key) is None,
    decreases before.len(),
{
    let all = before + seq![s] + after;
    if before.len() == 0 {
        assert(all[0] == s);
    } else {
        assert(all[0] == before[0]);
        let fewer = before.drop_first();
        assert forall|i: int| 0 <= i < fewer.len() implies (#[trigger] fewer[i]).key@ != key by {
            assert(fewer[i] == before[i + 1]);
        }
        assert(all.drop_first() =~= fewer + seq![s] + after);
        law_secret_of_a_key(fewer, s, after, key);
    }
}

/// A user is connected where an access token is stored that has not expired, and is told what
/// is known of the connection.
pub proof fn law_connection_is_told(
    r: GithubOAuthStatusResponse,
    is_configured: bool,
    can_decrypt: bool,
    info: Option<SecretInfo>,
    safe_user_id: Seq<char>,
    text: String,
)
    requires
        status_says(r, is_configured, can_decrypt, info),
    ensures
        r.configured == is_configured && r.can_decrypt == can_decrypt,
        r.connected == (info matches Some(s) && !s.is_expired),
        info matches Some(s) ==> {
            let has = |k: Seq<char>| s.labels@.dom().contains(k) && s.labels@[k] == text;
            &&& r.is_expired == s.is_expired && r.expires_at == s.expires_at
            &&& s.is_expired == r.message is Some
            &&& has("github_login"@) ==> r.login == Some(text)
            &&& has("github_user_id"@) ==> r.github_user_id == Some(text)
            &&& has("github_name"@) ==> r.name == Some(text)
            &&& has("github_email"@) ==> r.email == Some(text)
            &&& has("scopes"@) ==> r.scopes == Some(text)
            &&& has("connected_at"@) ==> r.connected_at == Some(text)
            &&& !s.labels@.dom().contains("github_login"@) ==> r.login is None
        },
        info is None ==> r.login is None && r.email is None && r.message is None,
        secret_key(safe_user_id, GITHUB_ACCESS_TOKEN_SUFFIX@) == safe_user_id + "-"@
            + "access-token"@,
        secret_key(safe_user_id, GITHUB_REFRESH_TOKEN_SUFFIX@) == safe_user_id + "-"@
            + "refresh-token"@,
{
}

/// Each character of a text is written in HTML by itself: five by an entity, and the others as
/// they are.
pub proof fn law_text_in_html(a: Seq<char>, c: char)
    ensures
        html_text(Seq::<char>::empty()).len() == 0,
        html_text(a.push(c)) == html_text(a) + if c == '&' {
            "&amp;"@
        } else if c == '<' {
            "&lt;"@
        } else if c == '>' {
            "&gt;"@
        } else if c == '"' {
            "&quot;"@
        } else if c == '\'' {
            "&#39;"@
        } else {
            seq![c]
        },
{
    assert(a.push(c).drop_last() =~= a);
}

/// A user sees the title and the message, escaped, and the color of success or of failure.
pub proof fn law_page_shows_the_message(title: Seq<char>, message: Seq<char>, success: bool)
    ensures
        has_infix(callback_page(title, message, success), html_text(message)),
        has_infix(callback_page(title, message, success), html_text(title)),
        has_infix(
            callback_page(title, message, success),
            if success {
                "#34d399"@
            } else {
                "#f87171"@
            },
        ),
{
    let color = if success {
        "#34d399"@
    } else {
        "#f87171"@
    };
    let t = html_text(title);
    let m = html_text(message);
    let page = callback_page(title, message, success);
    let a = PAGE_HEAD@ + t + PAGE_BODY@ + color + PAGE_TITLE@ + t + PAGE_MESSAGE@;
    law_parts_of_a_text(a, m, PAGE_END@);
    let b = PAGE_BODY@ + color + PAGE_TITLE@ + t + PAGE_MESSAGE@ + m + PAGE_END@;
    law_parts_of_a_text(PAGE_HEAD@, t, b);
    assert(PAGE_HEAD@ + t + b =~= page);
    let c = PAGE_TITLE@ + t + PAGE_MESSAGE@ + m + PAGE_END@;
    law_parts_of_a_text(PAGE_HEAD@ + t + PAGE_BODY@, color, c);
    assert(PAGE_HEAD@ + t + PAGE_BODY@ + color + c =~= page);
}

/// A user who refused is shown why.
pub proof fn law_refusal_is_shown(error: Seq<char>, description: Seq<char>)
    requires
        error.len() > 0 && !is_whitespace(error[0]) && !is_whitespace(error.last()),
        description.len() > 0 && !is_whitespace(description.last()),
    ensures
        cancel_message(error, Some(description)) == error + " "@ + description,
        cancel_message(error, None) == error,
{
    reveal_strlit(" ");
    let none = Seq::<char>::empty();
    let both = error + " "@ + description;
    assert(both[0] == error[0] && both.last() == description.last());
    law_trim_keeps_the_middle(none, both, none, CharSet::Whitespace);
    assert(none + both + none =~= both);
    law_trim_keeps_the_middle(none, error, " "@, CharSet::Whitespace);
    assert(none + error + " "@ =~= error + " "@ + none);
}

/// The token in a reply, and what is wrong with one that holds none.
pub proof fn law_token_in_a_reply(reply: GithubTokenResponse)
    ensures
        reply.error is None ==> (reply.access_token matches Some(t) ==> token_in(reply) == Ok::<
            Seq<char>,
            Seq<char>,
        >(t@)),
        reply.error is None && reply.access_token is None ==> token_in(reply) == Err::<
            Seq<char>,
            Seq<char>,
        >("GitHub did not return an access token"@),
        reply.error matches Some(e) ==> (reply.error_description matches Some(d) ==> token_in(reply)
            == Err::<Seq<char>, Seq<char>>("GitHub token exchange failed: "@ + e@ + " "@ + d@)),
        reply.error is Some ==> token_in(reply) is Err,
{
}

/// The address of a user: the one that the user shows, else the first that is primary and
/// verified.
pub proof fn law_address_of_a_user(
    user: GithubUserResponse,
    shown: String,
    before: Seq<GithubEmailResponse>,
    e: GithubEmailResponse,
    after: Seq<GithubEmailResponse>,
    any: Option<Seq<GithubEmailResponse>>,
)
    requires
        e.primary && e.verified,
        forall|i: int|
            0 <= i < before.len() ==> !((#[trigger] before[i]).primary && before[i].verified),
    ensures
        user.email == Some(shown) && trimmed(shown@).len() > 0 ==> email_of(user, any) == Some(
            shown@,
        ),
        user.email is None || trimmed(user.email->0@).len() == 0 ==> {
            &&& email_of(user, Some(before + seq![e] + after)) == Some(e.email@)
            &&& email_of(user, Some(before)) is None
            &&& email_of(user, None) is None
        },
    decreases before.len(),
{
    lemma_primary_is_found(before, e, after);
}

proof fn lemma_primary_is_found(
    before: Seq<GithubEmailResponse>,
    e: GithubEmailResponse,
    after: Seq<GithubEmailResponse>,
)
    requires
        e.primary && e.verified,
        forall|i: int|
            0 <= i < before.len() ==> !((#[trigger] before[i]).primary && before[i].verified),
    ensures
        primary_of(before + seq![e] + after) == Some(e.email@),
        primary_of(before) is None,
    decreases before.len(),
{
    let all = before + seq![e] + after;
    if before.len() == 0 {
        assert(all[0] == e);
    } else {
        assert(all[0] == before[0]);
        let fewer = before.drop_first();
        assert forall|i: int| 0 <= i < fewer.len() implies !((#[trigger] fewer[i]).primary
            && fewer[i].verified) by {
            assert(fewer[i] == before[i + 1]);
        }
        assert(all.drop_first() =~= fewer + seq![e] + after);
        lemma_primary_is_found(fewer, e, after);
    }
}

/// What is stored of a connection: the token under the name of the user, until when it lasts,
/// whose it is here and on GitHub, and the refresh token where there is one.
pub proof fn law_what_is_stored(
    user: UserView,
    safe_user_id: Seq<char>,
    token: Seq<char>,
    reply: GithubTokenResponse,
    github: GithubUserResponse,
    email: Option<Seq<char>>,
    now: i64,
    connected_at: Seq<char>,
    writes: Seq<SecretWrite>,
)
    requires
        stores(user, safe_user_id, token, reply, github, email, now, connected_at, writes),
    ensures
        ({
            let w = writes[0];
            let l = texts(w.labels@);
            let says = |k: Seq<char>, v: Seq<char>| l.dom().contains(k) && l[k] == v;
            let says_if = |k: Seq<char>, v: Option<Seq<char>>|
                match v {
                    Some(t) => if trimmed(t).len() > 0 {
                        l.dom().contains(k) && l[k] == t
                    } else {
                        !l.dom().contains(k)
                    },
                    None => !l.dom().contains(k),
                };
            &&& writes.len() >= 1
            &&& w.key@ == safe_user_id + "-"@ + "access-token"@ && w.value@ == token && w.kind
                == SecretKind::AccessToken
            &&& reply.expires_in matches Some(s) ==> (w.expires_at matches Some(t) && t == now + s)
            &&& reply.expires_in is None ==> w.expires_at is None
            &&& says("provider"@, "github"@)
            &&& says("user_id"@, user.id)
            &&& says("username"@, user.username)
            &&& says("github_login"@, github.login@)
            &&& says("github_user_id"@, signed_decimal(github.id as int))
            &&& says("connected_at"@, connected_at)
            &&& says_if("github_name"@, opt_string(github.name))
            &&& says_if("github_email"@, email)
            &&& says_if("scopes"@, opt_string(reply.scope))
            &&& says_if("token_type"@, opt_string(reply.token_type))
        }),
        reply.refresh_token matches Some(t) && trimmed(t@).len() > 0 ==> {
            let w = writes[1];
            let l = texts(w.labels@);
            &&& writes.len() == 2
            &&& w.key@ == safe_user_id + "-"@ + "refresh-token"@ && w.value@
                == reply.refresh_token->0@ && w.kind == SecretKind::RefreshToken
            &&& reply.refresh_token_expires_in matches Some(s) ==> (w.expires_at matches Some(e) && e
                == now + s)
            &&& l.dom().contains("user_id"@) && l["user_id"@] == user.id
            &&& l.dom().contains("github_login"@) && l["github_login"@] == github.login@
            &&& l.dom().contains("provider"@) && l["provider"@] == "github"@
        },
        reply.refresh_token is None ==> writes.len() == 1,
{
    reveal_strlit("provider");
    reveal_strlit("user_id");
    reveal_strlit("username");
    reveal_strlit("github_login");
    reveal_strlit("github_user_id");
    reveal_strlit("connected_at");
    reveal_strlit("github_name");
    reveal_strlit("github_email");
    reveal_strlit("scopes");
    reveal_strlit("token_type");
    assert("provider"@.len() == 8 &&
        "user_id"@.len() == 7 &&
        "username"@.len() == 8 &&
        "github_login"@.len() == 12 &&
        "github_user_id"@.len() == 14 &&
        "connected_at"@.len() == 12 &&
        "github_name"@.len() == 11 &&
        "github_email"@.len() == 12 &&
        "scopes"@.len() == 6 &&
        "token_type"@.len() == 10 &&
        "provider"@[0] == 'p' &&
        "username"@[0] == 'u' &&
        "github_login"@[0] == 'g' &&
        "connected_at"@[0] == 'c' &&
        "github_login"@[7] == 'l' &&
        "github_email"@[7] == 'e' &&
        "github_email"@[0] == 'g');
}

/// Which times are dates, and what is said where a secret could not be stored.
pub proof fn law_times_and_failures(now: i64, s: i64, error: Seq<char>)
    ensures
        time_after(now, Some(s)) == Some(now + s),
        time_after(now, None) is None,
        store_failure_text(SecretKind::AccessToken, error)
            == "Failed to store GitHub access token: "@ + error,
        store_failure_text(SecretKind::RefreshToken, error)
            == "Failed to store GitHub refresh token: "@ + error,
        PENDING_LIFETIME_NANOS == 15 * 60 * 1_000_000_000,
        GITHUB_OAUTH_REGISTRY@ == "github-oauth"@,
        GITHUB_TOKEN_URL@ == "https://github.com/login/oauth/access_token"@,
        GITHUB_USER_URL@ == "https://api.github.com/user"@,
        GITHUB_USER_EMAILS_URL@ == "https://api.github.com/user/emails"@,
{
}

/// A status that says that nothing is connected names nobody, no rights and no time.
pub proof fn law_nothing_is_said_of_nobody(r: GithubOAuthStatusResponse)
    ensures
        says_disconnected(r) <==> !r.connected && !r.is_expired && r.login is None
            && r.github_user_id is None && r.name is None && r.email is None && r.scopes is None
            && r.connected_at is None && r.expires_at is None,
{
}

/// Dates reach from the first moment to the last, both among them.
pub proof fn law_dates_have_bounds(now: i64, seconds: i64)
    ensures
        is_date_after(now, None),
        is_date_after(now, Some(seconds)) <==> -8_334_601_228_800 <= now + seconds
            <= 8_210_266_876_799,
{
}

} // verus!
