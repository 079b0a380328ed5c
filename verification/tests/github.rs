use sandboxed::auth::{AuthConfig, AuthMode, AuthUser, Config, Refusal};
use sandboxed::clock::Moment;
use sandboxed::github::{
    after_exchange, after_user_lookup, authorize_query, callback_start, check_ready, connected_page,
    credentials_secret, escape_html, github_callback_html, github_email, github_oauth_authorize,
    github_oauth_authorize_with, github_oauth_callback, github_oauth_configured, github_oauth_credentials_for_user,
    github_oauth_disconnect, github_oauth_redirect_uri, github_oauth_scopes, github_oauth_status,
    github_secret_key, github_status_without_store, granted_token, needs_email, primary_email,
    require_client, secrets_ready, secrets_unavailable, store_failure, store_github_oauth,
    store_github_oauth_at,
    token_form, trim_trailing_slash, AuthorizeError, CallbackStart, CallbackStep, ExchangeReply,
    GithubEmailResponse, GithubEnv, GithubOAuthCallbackQuery, GithubTokenResponse,
    GithubUserResponse, PendingAuthorizations, PendingGithubOAuth, SecretInfo, SecretKind, UserReply,
    PENDING_LIFETIME_NANOS,
};
use sandboxed::github_connect::{
    next_connect_step, next_write, ConnectProgress, ConnectStep, WriteStep,
};
use sandboxed::textmap::TextMap;

fn text(s: &str) -> Option<String> {
    Some(s.to_string())
}

fn env() -> GithubEnv {
    GithubEnv {
        client_id: text(" id "),
        client_secret: text("sec"),
        scopes: None,
        redirect_uri: None,
        public_url: None,
    }
}

fn config() -> Config {
    Config {
        dev_mode: false,
        host: "127.0.0.1".to_string(),
        port: 3000,
        auth: AuthConfig {
            mode: AuthMode::Disabled,
            required: false,
            jwt_secret: None,
            jwt_ttl_days: 30,
            dashboard_password: None,
            users: Vec::new(),
        },
    }
}

fn user(id: &str) -> AuthUser {
    AuthUser {
        id: id.to_string(),
        username: format!("name of {}", id),
    }
}

fn moment(seconds: i64, nanos: u32) -> Moment {
    Moment { seconds, nanos }
}

fn said<T>(r: Result<T, Refusal>) -> (u16, String) {
    match r {
        Ok(_) => panic!("not refused"),
        Err(e) => (e.status, e.message),
    }
}

#[test]
fn github_is_configured_by_the_environment() {
    let mut e = env();
    assert!(github_oauth_configured(&e));
    assert_eq!(require_client(&e).unwrap(), ("id".to_string(), "sec".to_string()));
    assert_eq!(github_oauth_scopes(&e), "repo workflow read:user user:email");
    e.scopes = text(" repo ");
    assert_eq!(github_oauth_scopes(&e), "repo");
    assert_eq!(
        github_oauth_redirect_uri(&e, &config()),
        "http://127.0.0.1:3000/api/auth/github/callback"
    );
    e.public_url = text("https://host// ");
    assert_eq!(
        github_oauth_redirect_uri(&e, &config()),
        "https://host/api/auth/github/callback"
    );
    e.redirect_uri = text("https://own/cb");
    assert_eq!(github_oauth_redirect_uri(&e, &config()), "https://own/cb");
    assert_eq!(trim_trailing_slash("a//"), "a");
    e.client_secret = text(" ");
    assert_eq!(
        said(require_client(&e)),
        (400, "GITHUB_OAUTH_CLIENT_SECRET is not configured".to_string())
    );
    e.client_id = None;
    assert!(!github_oauth_configured(&e));
    assert_eq!(
        said(require_client(&e)),
        (400, "GITHUB_OAUTH_CLIENT_ID is not configured".to_string())
    );
}

#[test]
fn secrets_must_be_ready() {
    assert_eq!(secrets_ready(&None, true), Ok(()));
    assert_eq!(
        secrets_ready(&text("disk"), true),
        Err("Failed to initialize secrets store: disk".to_string())
    );
    assert!(secrets_ready(&None, false).unwrap_err().starts_with("Secrets store is locked."));
    let e = secrets_unavailable();
    assert_eq!((e.status, e.message.as_str()), (503, "Secrets store is not available"));
    assert!(check_ready(&env(), &Some(Ok(()))).is_ok());
    assert_eq!(said(check_ready(&env(), &None)).0, 503);
    assert_eq!(
        said(check_ready(&env(), &Some(Err("locked".to_string())))),
        (400, "locked".to_string())
    );
}

fn secret(key: &str, is_expired: bool) -> SecretInfo {
    let mut labels = TextMap::new();
    labels.insert("github_login".to_string(), "octo".to_string());
    labels.insert("scopes".to_string(), "repo".to_string());
    SecretInfo {
        key: key.to_string(),
        labels,
        expires_at: Some(9),
        is_expired,
    }
}

#[test]
fn status_of_the_connection() {
    let s = github_status_without_store(&env());
    assert!(s.configured && !s.connected && !s.can_decrypt);
    assert_eq!(s.message, text("Secrets store is not available"));
    let s = github_oauth_status(&env(), true, "u", &None);
    assert!(!s.connected && s.can_decrypt && s.message.is_none());
    let secrets = Some(vec![secret("v-access-token", false), secret("u-access-token", false)]);
    let s = github_oauth_status(&env(), true, "u", &secrets);
    assert!(s.connected);
    assert_eq!((s.login, s.scopes, s.name), (text("octo"), text("repo"), None));
    assert_eq!(s.expires_at, Some(9));
    let expired = Some(vec![secret("u-access-token", true)]);
    let s = github_oauth_status(&env(), true, "u", &expired);
    assert!(!s.connected && s.is_expired);
    assert_eq!(s.message, text("GitHub OAuth token is expired; reconnect GitHub."));
}

#[test]
fn credentials_of_a_user() {
    let secrets = vec![secret("u-access-token", false), secret("w-access-token", true)];
    assert!(credentials_secret(&secrets, "u").is_some());
    assert!(credentials_secret(&secrets, "w").is_none());
    assert!(credentials_secret(&secrets, "x").is_none());
    let c = github_oauth_credentials_for_user(&secrets, "u", text("tok")).unwrap();
    assert_eq!((c.access_token.as_str(), c.login), ("tok", text("octo")));
    assert!(github_oauth_credentials_for_user(&secrets, "u", None).is_none());
    assert!(github_oauth_credentials_for_user(&secrets, "w", text("tok")).is_none());
    assert_eq!(github_secret_key("u", "access-token"), "u-access-token");
}

#[test]
fn users_are_sent_to_github() {
    let mut pending = PendingAuthorizations::new();
    let store = Some(Ok(()));
    let a = match github_oauth_authorize_with(
        &env(),
        &config(),
        &store,
        &mut pending,
        user("u"),
        "st&te".to_string(),
        moment(0, 0),
    ) {
        Ok(a) => a,
        Err(_) => panic!("not authorised"),
    };
    assert_eq!(
        a.url,
        "https://github.com/login/oauth/authorize?client_id=id\
         &redirect_uri=http%3A%2F%2F127.0.0.1%3A3000%2Fapi%2Fauth%2Fgithub%2Fcallback\
         &scope=repo+workflow+read%3Auser+user%3Aemail&state=st%26te&allow_signup=true"
    );
    assert_eq!(a.state, "st&te");
    assert_eq!(authorize_query("i", "r", "s", "t").len(), 5);
    let p = pending.take("st&te").unwrap();
    assert_eq!((p.user.id.as_str(), p.created_at), ("u", moment(0, 0)));
    assert_eq!(p.redirect_uri, a.redirect_uri);
    let invalid = (400, "OAuth state is invalid or expired".to_string());
    assert_eq!(said(pending.take("st&te")), invalid);
    match github_oauth_authorize_with(
        &env(),
        &config(),
        &None,
        &mut pending,
        user("u"),
        "s".to_string(),
        moment(0, 0),
    ) {
        Err(AuthorizeError::Refused(e)) => assert_eq!(e.status, 503),
        _ => panic!("not refused"),
    }
    assert_eq!(said(pending.take("s")), invalid);
}

#[test]
fn authorisations_do_not_last() {
    let mut pending = PendingAuthorizations::new();
    let minutes = (PENDING_LIFETIME_NANOS / 1_000_000_000) as i64;
    pending.begin("old".to_string(), user("a"), "r".to_string(), moment(100, 0));
    pending.begin("kept".to_string(), user("b"), "r".to_string(), moment(100, 1));
    pending.begin("new".to_string(), user("c"), "r".to_string(), moment(100 + minutes, 1));
    assert!(pending.take("old").is_err());
    assert_eq!(pending.take("kept").unwrap().user.id, "b");
    assert_eq!(pending.take("new").unwrap().user.id, "c");
}

#[test]
fn pages_show_text_as_it_is() {
    assert_eq!(escape_html("<a href=\"x\">'&'</a>"), "&lt;a href=&quot;x&quot;&gt;&#39;&amp;&#39;&lt;/a&gt;");
    let page = github_callback_html("<T>", "m & n", false);
    assert!(page.starts_with("<!doctype html>"));
    assert!(page.contains("<title>&lt;T&gt;</title>"));
    assert!(page.contains("m &amp; n"));
    assert!(page.contains("#f87171") && !page.contains("#34d399"));
    let page = connected_page();
    assert!(page.contains("GitHub connected") && page.contains("#34d399"));
}

fn query(code: Option<&str>, state: Option<&str>, error: Option<&str>) -> GithubOAuthCallbackQuery {
    GithubOAuthCallbackQuery {
        code: code.map(String::from),
        state: state.map(String::from),
        error: error.map(String::from),
        error_description: None,
    }
}

#[test]
fn users_come_back_from_github() {
    assert_eq!(
        said(callback_start(query(None, Some("s"), None))),
        (400, "Missing OAuth code".to_string())
    );
    assert_eq!(
        said(callback_start(query(Some("c"), None, None))),
        (400, "Missing OAuth state".to_string())
    );
    match callback_start(query(Some("c"), Some("s"), None)) {
        Ok(CallbackStart::Exchange { code, state }) => {
            assert_eq!((code.as_str(), state.as_str()), ("c", "s"))
        }
        _ => panic!("no exchange"),
    }
    let mut pending = PendingAuthorizations::new();
    pending.begin("s".to_string(), user("u"), "r".to_string(), moment(0, 0));
    let mut denied = query(Some("c"), Some("s"), Some("access_denied"));
    denied.error_description = text("no <thanks>");
    match github_oauth_callback(denied, &mut pending) {
        Ok(CallbackStep::Page(p)) => {
            assert!(p.contains("GitHub connection cancelled"));
            assert!(p.contains("access_denied no &lt;thanks&gt;"));
        }
        _ => panic!("no page"),
    }
    match github_oauth_callback(query(Some("c"), Some("s"), None), &mut pending) {
        Ok(CallbackStep::Exchange { code, pending }) => {
            assert_eq!((code.as_str(), pending.user.id.as_str()), ("c", "u"))
        }
        _ => panic!("no exchange"),
    }
    assert_eq!(said(github_oauth_callback(query(Some("c"), Some("s"), None), &mut pending)).0, 400);
    pending.begin("t".to_string(), user("v"), "r".to_string(), moment(1, 0));
    assert!(pending.take("s").is_err());
    assert_eq!(pending.take("t").unwrap().user.id, "v");
    assert!(pending.take("s").is_err() && pending.take("t").is_err());
}

fn connecting(progress: ConnectProgress) -> ConnectStep {
    let pending = PendingGithubOAuth {
        user: user("u"),
        redirect_uri: "r".to_string(),
        created_at: moment(0, 0),
    };
    next_connect_step(progress, &env(), "c", &pending)
}

fn refused_with(step: ConnectStep) -> (u16, String) {
    match step {
        ConnectStep::Refuse { refusal } => (refusal.status, refusal.message),
        _ => panic!("not refused"),
    }
}

#[test]
fn users_are_connected_step_by_step() {
    assert_eq!(refused_with(connecting(ConnectProgress::Returned { store: None })).0, 503);
    match connecting(ConnectProgress::Returned { store: Some(Ok(())) }) {
        ConnectStep::Exchange { form } => {
            assert_eq!(form[2], ("code".to_string(), "c".to_string()));
            assert_eq!(form[3], ("redirect_uri".to_string(), "r".to_string()));
        }
        _ => panic!("not exchanged"),
    }
    let exchanged = |reply| connecting(ConnectProgress::Exchanged { reply });
    assert_eq!(
        refused_with(exchanged(ExchangeReply::Failed("x".to_string()))),
        (500, "x".to_string())
    );
    assert_eq!(refused_with(exchanged(ExchangeReply::Reply(reply(None)))).0, 502);
    match exchanged(ExchangeReply::Reply(reply(Some("t")))) {
        ConnectStep::AskUser { token, reply } => {
            assert_eq!((token.as_str(), reply.expires_in), ("t", Some(60)))
        }
        _ => panic!("not asked"),
    }
    let octo = |email: Option<&str>| GithubUserResponse {
        id: 42,
        login: "octo".to_string(),
        name: None,
        email: email.map(String::from),
    };
    let asked = |user| {
        connecting(ConnectProgress::UserAsked {
            token: "t".to_string(),
            reply: reply(Some("t")),
            user,
        })
    };
    assert_eq!(
        refused_with(asked(UserReply::Failed("x".to_string()))),
        (502, "Failed to fetch GitHub user: x".to_string())
    );
    match asked(UserReply::User(octo(Some("a@b")))) {
        ConnectStep::Store { token, user, email, .. } => {
            assert_eq!((token.as_str(), user.id, email), ("t", 42, text("a@b")))
        }
        _ => panic!("not stored"),
    }
    match asked(UserReply::User(octo(Some(" ")))) {
        ConnectStep::AskEmails { token, user, .. } => {
            assert_eq!((token.as_str(), user.login.as_str()), ("t", "octo"))
        }
        _ => panic!("not asked"),
    }
    let mails = |emails| {
        connecting(ConnectProgress::EmailsAsked {
            token: "t".to_string(),
            reply: reply(Some("t")),
            user: octo(None),
            emails,
        })
    };
    let primary = GithubEmailResponse {
        email: "p".to_string(),
        primary: true,
        verified: true,
    };
    assert!(matches!(mails(Some(vec![primary])), ConnectStep::Store { email, .. } if email == text("p")));
    assert!(matches!(mails(None), ConnectStep::Store { email: None, .. }));
}

#[test]
fn secrets_are_stored_until_one_fails() {
    let mut r = reply(Some("t"));
    r.refresh_token = text("again");
    let u = GithubUserResponse {
        id: 42,
        login: "octo".to_string(),
        name: None,
        email: None,
    };
    let writes = store_github_oauth_at(&user("u"), "safe", "t", &r, &u, &None, 100, "then");
    let rest = match next_write(writes, None) {
        WriteStep::Write { secret, rest } => {
            assert_eq!((secret.value.as_str(), rest.len()), ("t", 1));
            rest
        }
        _ => panic!("not written"),
    };
    let rest = match next_write(rest, None) {
        WriteStep::Write { secret, rest } => {
            assert_eq!(secret.value, "again");
            rest
        }
        _ => panic!("not written"),
    };
    match next_write(rest, None) {
        WriteStep::Page { page } => assert_eq!(page, connected_page()),
        _ => panic!("no page"),
    }
    match next_write(Vec::new(), Some((SecretKind::RefreshToken, "x".to_string()))) {
        WriteStep::Refuse { refusal } => {
            assert_eq!(refusal.message, "Failed to store GitHub refresh token: x")
        }
        _ => panic!("not refused"),
    }
}

fn reply(access_token: Option<&str>) -> GithubTokenResponse {
    GithubTokenResponse {
        access_token: access_token.map(String::from),
        token_type: text("bearer"),
        scope: text(" "),
        expires_in: Some(60),
        refresh_token: None,
        refresh_token_expires_in: None,
        error: None,
        error_description: None,
    }
}

#[test]
fn codes_are_exchanged_for_tokens() {
    let form = token_form("i", "s", "c", "r");
    assert_eq!(form[2], ("code".to_string(), "c".to_string()));
    assert_eq!(form.len(), 4);
    let failed = ExchangeReply::HttpError {
        status: "500".to_string(),
        text: "oops".to_string(),
    };
    assert_eq!(
        said(after_exchange(failed)),
        (502, "GitHub token exchange failed (500): oops".to_string())
    );
    match after_exchange(ExchangeReply::Reply(reply(Some("t")))) {
        Ok((token, r)) => assert_eq!((token.as_str(), r.expires_in), ("t", Some(60))),
        Err(e) => panic!("refused: {:?}", e),
    }
    assert_eq!(granted_token(&reply(Some("t"))).unwrap(), "t");
    assert_eq!(
        said(granted_token(&reply(None))),
        (502, "GitHub did not return an access token".to_string())
    );
    let mut r = reply(Some("t"));
    r.error = text("bad_code");
    r.error_description = text("expired");
    assert_eq!(
        said(granted_token(&r)),
        (502, "GitHub token exchange failed: bad_code expired".to_string())
    );
}

#[test]
fn addresses_are_asked_for_where_they_are_missing() {
    let mut u = GithubUserResponse {
        id: 42,
        login: "octo".to_string(),
        name: None,
        email: text(" "),
    };
    assert!(needs_email(&u));
    u.email = text("a@b");
    assert!(!needs_email(&u));
    let mail = |email: &str, primary: bool, verified: bool| GithubEmailResponse {
        email: email.to_string(),
        primary,
        verified,
    };
    assert_eq!(
        primary_email(&vec![mail("a", true, false), mail("b", false, true), mail("c", true, true)]),
        text("c")
    );
    assert_eq!(primary_email(&vec![mail("a", true, false)]), None);
    let all = Some(vec![mail("c", true, true)]);
    assert_eq!(github_email(&u, &all), text("a@b"));
    u.email = None;
    assert_eq!(github_email(&u, &all), text("c"));
    assert_eq!(github_email(&u, &None), None);
    let refused = |r| said(after_user_lookup(r));
    assert_eq!(
        refused(UserReply::Failed("x".to_string())),
        (502, "Failed to fetch GitHub user: x".to_string())
    );
    assert_eq!(
        refused(UserReply::HttpError {
            status: "403".to_string(),
            text: "no".to_string()
        }),
        (502, "GitHub user fetch failed (403): no".to_string())
    );
    assert_eq!(
        refused(UserReply::Unreadable("x".to_string())),
        (502, "Failed to parse GitHub user response: x".to_string())
    );
    match after_user_lookup(UserReply::User(u)) {
        Ok(u) => assert_eq!(u.login, "octo"),
        Err(e) => panic!("refused: {:?}", e),
    }
}

#[test]
fn connections_are_stored_and_deleted() {
    let u = GithubUserResponse {
        id: 42,
        login: "octo".to_string(),
        name: text("Octo Cat"),
        email: None,
    };
    let mut r = reply(Some("t"));
    let writes = store_github_oauth_at(&user("u"), "safe", "t", &r, &u, &text("a@b"), 100, "then");
    assert_eq!(writes.len(), 1);
    let w = &writes[0];
    assert_eq!((w.key.as_str(), w.value.as_str()), ("safe-access-token", "t"));
    assert_eq!(w.kind, SecretKind::AccessToken);
    assert_eq!(w.expires_at, Some(160));
    let label = |k: &str| w.labels.get(k).map(|s| s.as_str());
    assert_eq!(label("provider"), Some("github"));
    assert_eq!(label("user_id"), Some("u"));
    assert_eq!(label("username"), Some("name of u"));
    assert_eq!(label("github_login"), Some("octo"));
    assert_eq!(label("github_user_id"), Some("42"));
    assert_eq!(label("connected_at"), Some("then"));
    assert_eq!(label("github_name"), Some("Octo Cat"));
    assert_eq!(label("github_email"), Some("a@b"));
    assert_eq!(label("scopes"), None);
    assert_eq!(label("token_type"), Some("bearer"));

    r.refresh_token = text("again");
    r.refresh_token_expires_in = Some(1000);
    let writes = store_github_oauth_at(&user("u"), "safe", "t", &r, &u, &None, 100, "then");
    assert_eq!(writes.len(), 2);
    assert_eq!((writes[1].key.as_str(), writes[1].value.as_str()), ("safe-refresh-token", "again"));
    assert_eq!(writes[1].kind, SecretKind::RefreshToken);
    assert_eq!(writes[1].expires_at, Some(1100));
    let e = store_failure(SecretKind::AccessToken, "x");
    assert_eq!(
        (e.status, e.message.as_str()),
        (500, "Failed to store GitHub access token: x")
    );
    let e = store_failure(SecretKind::RefreshToken, "x");
    assert_eq!(e.message, "Failed to store GitHub refresh token: x");
    let deleted = github_oauth_disconnect("safe");
    assert!(writes.iter().all(|w| deleted.contains(&w.key)));
}

#[test]
fn connections_are_dated() {
    let mut pending = PendingAuthorizations::new();
    let store = Some(Ok(()));
    let authorize = |pending: &mut PendingAuthorizations| {
        match github_oauth_authorize(&env(), &config(), &store, pending, user("u")) {
            Ok(a) => a,
            Err(_) => panic!("not authorised"),
        }
    };
    let a = authorize(&mut pending);
    let b = authorize(&mut pending);
    assert_ne!(a.state, b.state);
    assert!(a.url.contains(&format!("state={}&", a.state)));
    let p = pending.take(&a.state).unwrap();
    assert!(p.created_at.seconds > 1_600_000_000);
    assert_eq!(pending.take(&b.state).unwrap().user.id, "u");

    let u = GithubUserResponse {
        id: 1,
        login: "octo".to_string(),
        name: None,
        email: None,
    };
    let mut r = reply(Some("t"));
    let writes = store_github_oauth(&user("u"), "safe", "t", &r, &u, &None).unwrap();
    let at = chrono::DateTime::parse_from_rfc3339(writes[0].labels.get("connected_at").unwrap());
    assert_eq!(writes[0].expires_at, Some(at.unwrap().timestamp() + 60));
    r.expires_in = Some(i64::MAX);
    assert!(store_github_oauth(&user("u"), "safe", "t", &r, &u, &None).is_none());
}
