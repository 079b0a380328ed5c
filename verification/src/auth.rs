//! Who may use the dashboard: logins, tokens and passwords.
use vstd::prelude::*;
use vstd::utf8::encode_utf8;

use crate::clock::{is_present, rfc3339, utc_now, Moment, MAX_TIMESTAMP, MIN_TIMESTAMP};
use crate::password::{
    constant_time_eq, hash_password, is_checkable, is_hash_of, law_own_hash_is_accepted, verifies,
    verify_password_hash,
};
use crate::text::{
    blank, byte_len, clone_opt, has_prefix, is_blank, is_whitespace, law_parts_of_a_text,
    law_trim_keeps_the_middle, opt_string, str_eq, strip_prefix, trim, trimmed, without_prefix,
    CharSet,
};
use crate::token::{
    check_expiry, claims_text, counts_at, expires_at_date, holds_claims, issue_jwt_at,
    law_token_says_claims, opt_claims, said_at, signed_token, user_claims, verify_jwt, Claims,
    ClaimsView, IssueError,
};

verus! {

// ---------------------------------------------------------------------------
// Configuration
// ---------------------------------------------------------------------------

/// How users are told apart.
#[derive(Debug, Clone, Copy, PartialEq, Eq, Structural)]
pub enum AuthMode {
    Disabled,
    SingleTenant,
    MultiUser,
}

/// An account of one of several users.
pub struct UserAccount {
    pub id: String,
    pub username: String,
    pub password: String,
}

/// How the dashboard is protected.
pub struct AuthConfig {
    pub mode: AuthMode,
    /// Whether requests must carry a token.
    pub required: bool,
    pub jwt_secret: Option<String>,
    pub jwt_ttl_days: i64,
    pub dashboard_password: Option<String>,
    pub users: Vec<UserAccount>,
}

/// The configuration of the server, as far as it matters here.
pub struct Config {
    pub dev_mode: bool,
    pub host: String,
    pub port: u16,
    pub auth: AuthConfig,
}

/// A user.
#[derive(Debug)]
pub struct AuthUser {
    pub id: String,
    pub username: String,
}

/// The model of a user.
pub struct UserView {
    pub id: Seq<char>,
    pub username: Seq<char>,
}

impl View for AuthUser {
    type V = UserView;

    open spec fn view(&self) -> UserView {
        UserView { id: self.id@, username: self.username@ }
    }
}

/// The password that was set in the dashboard.
pub struct AuthSettings {
    pub password_hash: Option<String>,
    pub password_changed_at: Option<String>,
}

/// A refused request: an HTTP status and a message.
#[derive(Debug)]
pub struct Refusal {
    pub status: u16,
    pub message: String,
}

/// Whether `r` refuses with a status and a message.
pub open spec fn refuses(r: Refusal, status: u16, message: Seq<char>) -> bool {
    r.status == status && r.message@ == message
}

pub fn refusal(status: u16, message: &str) -> (r: Refusal)
    ensures
        refuses(r, status, message@),
{
    Refusal { status, message: message.to_string() }
}

// ---------------------------------------------------------------------------
// Users
// ---------------------------------------------------------------------------

/// A text without whitespace at its ends, unless nothing is left.
pub open spec fn nonblank(s: Option<Seq<char>>) -> Option<Seq<char>> {
    match s {
        Some(t) => if trimmed(t).len() == 0 {
            None
        } else {
            Some(trimmed(t))
        },
        None => None,
    }
}

pub fn nonblank_text(s: &Option<String>) -> (r: Option<String>)
    ensures
        opt_string(r) == nonblank(opt_string(*s)),
{
    match s {
        Some(t) => {
            let t = trim(t.as_str());
            if t.is_empty() {
                None
            } else {
                Some(t.to_string())
            }
        },
        None => None,
    }
}

/// The identifier of the only user: of the two variables that may hold it the first
/// that is set, unless it is blank.
pub open spec fn tenant_id(primary: Option<Seq<char>>, secondary: Option<Seq<char>>) -> Option<
    Seq<char>,
> {
    match primary {
        Some(_) => nonblank(primary),
        None => nonblank(secondary),
    }
}

/// The identifier of the only user, given the values of
/// `SANDBOXED_SINGLE_TENANT_USER_ID` and `SINGLE_TENANT_USER_ID`.
pub fn configured_single_tenant_user_id(primary: &Option<String>, secondary: &Option<String>) -> (r:
    Option<String>)
    ensures
        opt_string(r) == tenant_id(opt_string(*primary), opt_string(*secondary)),
{
    match primary {
        Some(_) => nonblank_text(primary),
        None => nonblank_text(secondary),
    }
}

/// The only user.
pub open spec fn tenant(dev_mode: bool, configured: Option<Seq<char>>) -> UserView {
    if dev_mode {
        UserView { id: "dev"@, username: "dev"@ }
    } else {
        match configured {
            Some(id) => UserView { id, username: id },
            None => UserView { id: "default"@, username: "default"@ },
        }
    }
}

pub fn implicit_single_tenant_user_from_id(
    config: &Config,
    configured_user_id: Option<String>,
) -> (r: AuthUser)
    ensures
        r@ == tenant(config.dev_mode, opt_string(configured_user_id)),
{
    if config.dev_mode {
        return AuthUser { id: "dev".to_string(), username: "dev".to_string() };
    }
    let id = match configured_user_id {
        Some(id) => id,
        None => "default".to_string(),
    };
    AuthUser { username: id.clone(), id }
}

/// The only user: `dev` in development, else the configured one or `default`.
pub fn implicit_single_tenant_user(
    config: &Config,
    primary: &Option<String>,
    secondary: &Option<String>,
) -> (r: AuthUser)
    ensures
        r@ == tenant(
            config.dev_mode,
            tenant_id(opt_string(*primary), opt_string(*secondary)),
        ),
{
    implicit_single_tenant_user_from_id(
        config,
        configured_single_tenant_user_id(primary, secondary),
    )
}

/// The identifier of an account: its own, else its name.
pub open spec fn effective_id(u: UserAccount) -> Seq<char> {
    if u.id@.len() == 0 {
        u.username@
    } else {
        u.id@
    }
}

pub fn effective_user_id(user: &UserAccount) -> (r: String)
    ensures
        r@ == effective_id(*user),
{
    if user.id.as_str().is_empty() {
        user.username.clone()
    } else {
        user.id.clone()
    }
}

/// The first account with an identifier.
pub open spec fn account_with_id(users: Seq<UserAccount>, id: Seq<char>) -> Option<UserView>
    decreases users.len(),
{
    if users.len() == 0 {
        None
    } else if effective_id(users[0]) == id {
        Some(UserView { id, username: users[0].username@ })
    } else {
        account_with_id(users.drop_first(), id)
    }
}

/// The model of a user that may be there.
pub open spec fn opt_user(o: Option<AuthUser>) -> Option<UserView> {
    match o {
        Some(u) => Some(u@),
        None => None,
    }
}

/// The user of the account that a token names.
pub fn user_for_claims(claims: &Claims, users: &Vec<UserAccount>) -> (r: Option<AuthUser>)
    ensures
        opt_user(r) == account_with_id(users@, claims.sub@),
{
    let mut i: usize = 0;
    assert(users@.skip(0) == users@);
    while i < users.len()
        invariant
            i <= users@.len(),
            account_with_id(users@, claims.sub@) == account_with_id(
                users@.skip(i as int),
                claims.sub@,
            ),
        decreases users@.len() - i,
    {
        assert(users@.skip(i as int).drop_first() == users@.skip(i + 1));
        let id = effective_user_id(&users[i]);
        if str_eq(id.as_str(), claims.sub.as_str()) {
            return Some(AuthUser { id, username: users[i].username.clone() });
        }
        i += 1;
    }
    None
}

// ---------------------------------------------------------------------------
// Tokens
// ---------------------------------------------------------------------------

/// Whether a request with a token is let through, given what the token says; nothing
/// where it says nothing.
pub open spec fn token_passes(config: Config, claims: Option<ClaimsView>) -> bool {
    if !config.auth.required {
        true
    } else {
        match (config.auth.jwt_secret, claims) {
            (Some(_), Some(c)) => match config.auth.mode {
                AuthMode::MultiUser => account_with_id(config.auth.users@, c.sub) is Some,
                AuthMode::SingleTenant => true,
                AuthMode::Disabled => true,
            },
            _ => false,
        }
    }
}

/// What a token says at the time `now`, where it was signed with the secret of the server.
pub open spec fn signed_claims(config: Config, token: Seq<char>, now: u64) -> Option<ClaimsView> {
    match config.auth.jwt_secret {
        Some(secret) => said_at(token, secret@, now),
        None => None,
    }
}

/// Whether a request with a token is let through, given what the token says.
pub fn verify_claims_for_config(claims: &Option<Claims>, config: &Config) -> (r: bool)
    ensures
        r == token_passes(*config, opt_claims(*claims)),
{
    if !config.auth.required {
        return true;
    }
    if config.auth.jwt_secret.is_none() {
        return false;
    }
    match claims {
        Some(c) => match config.auth.mode {
            AuthMode::MultiUser => user_for_claims(c, &config.auth.users).is_some(),
            AuthMode::SingleTenant => true,
            AuthMode::Disabled => true,
        },
        None => false,
    }
}

/// Whether a request with a token is let through: where none is required, or the
/// token is valid and, among several users, names one of them.
pub fn verify_token_for_config(token: &str, config: &Config) -> (r: bool)
    ensures
        !config.auth.required ==> r,
        config.auth.required && config.auth.jwt_secret is None ==> !r,
        config.auth.required && config.auth.jwt_secret is Some ==> exists|now: u64|
            r == token_passes(*config, #[trigger] signed_claims(*config, token@, now)),
{
    if !config.auth.required {
        return true;
    }
    match &config.auth.jwt_secret {
        Some(secret) => {
            let claims = verify_jwt(token, secret.as_str());
            proof {
                let now: u64 = choose|now: u64|
                    opt_claims(claims) == #[trigger] said_at(token@, secret@, now);
                assert(signed_claims(*config, token@, now) == opt_claims(claims));
            }
            verify_claims_for_config(&claims, config)
        },
        None => false,
    }
}

// ---------------------------------------------------------------------------
// Login
// ---------------------------------------------------------------------------

pub struct LoginRequest {
    pub username: Option<String>,
    pub password: String,
}

pub struct LoginResponse {
    pub token: String,
    pub exp: i64,
}

/// The first account with a name.
pub open spec fn account_named(users: Seq<UserAccount>, name: Seq<char>) -> Option<UserAccount>
    decreases users.len(),
{
    if users.len() == 0 {
        None
    } else if trimmed(users[0].username@) == name {
        Some(users[0])
    } else {
        account_named(users.drop_first(), name)
    }
}

fn find_account<'a>(users: &'a Vec<UserAccount>, name: &str) -> (r: Option<&'a UserAccount>)
    ensures
        match r {
            Some(u) => account_named(users@, name@) == Some(*u),
            None => account_named(users@, name@) is None,
        },
{
    let mut i: usize = 0;
    assert(users@.skip(0) == users@);
    while i < users.len()
        invariant
            i <= users@.len(),
            account_named(users@, name@) == account_named(users@.skip(i as int), name@),
        decreases users@.len() - i,
    {
        assert(users@.skip(i as int).drop_first() == users@.skip(i + 1));
        if str_eq(trim(users[i].username.as_str()), name) {
            return Some(&users[i]);
        }
        i += 1;
    }
    None
}

/// Whether a password fits an account, which must have one.
pub open spec fn account_accepts(u: UserAccount, password: Seq<char>) -> bool {
    !blank(u.password@) && trimmed(password) == trimmed(u.password@)
}

/// The hash that was stored in the dashboard.
pub open spec fn dashboard_hash(stored: Option<AuthSettings>) -> Option<Seq<char>> {
    match stored {
        Some(s) => opt_string(s.password_hash),
        None => None,
    }
}

/// The password in the environment, which counts only if it is not empty.
pub open spec fn environment_password(config: Config) -> Option<Seq<char>> {
    match config.auth.dashboard_password {
        Some(p) => if p@.len() > 0 {
            Some(p@)
        } else {
            None
        },
        None => None,
    }
}

/// Whether a password is that of the dashboard: the one that was stored, else the one
/// in the environment.
pub open spec fn dashboard_accepts(
    config: Config,
    stored: Option<AuthSettings>,
    password: Seq<char>,
) -> bool {
    match dashboard_hash(stored) {
        Some(hash) => verifies(trimmed(password), hash),
        None => match environment_password(config) {
            Some(expected) => trimmed(password) == expected,
            None => false,
        },
    }
}

/// Whether a stored hash is short enough to be checked.
pub open spec fn hash_is_checkable(stored: Option<AuthSettings>) -> bool {
    dashboard_hash(stored) matches Some(h) ==> is_checkable(h)
}

/// The user who logs in, or the message with which that is refused. It does not tell
/// a wrong name from a wrong password.
pub open spec fn login_user(
    config: Config,
    req: LoginRequest,
    stored: Option<AuthSettings>,
    configured: Option<Seq<char>>,
) -> Result<UserView, Seq<char>> {
    match config.auth.mode {
        AuthMode::MultiUser => {
            let name = match req.username {
                Some(u) => trimmed(u@),
                None => trimmed(""@),
            };
            if name.len() == 0 {
                Err("Username required"@)
            } else {
                match account_named(config.auth.users@, name) {
                    Some(u) => if account_accepts(u, req.password@) {
                        Ok(UserView { id: effective_id(u), username: u.username@ })
                    } else {
                        Err("Invalid username or password"@)
                    },
                    None => Err("Invalid username or password"@),
                }
            }
        },
        AuthMode::SingleTenant | AuthMode::Disabled => if dashboard_accepts(
            config,
            stored,
            req.password@,
        ) {
            Ok(tenant(config.dev_mode, configured))
        } else {
            Err("Invalid password"@)
        },
    }
}

fn environment_accepts(config: &Config, password: &str) -> (r: bool)
    ensures
        r == (environment_password(*config) == Some(password@)),
{
    match &config.auth.dashboard_password {
        Some(expected) => !expected.as_str().is_empty() && constant_time_eq(
            password,
            expected.as_str(),
        ),
        None => false,
    }
}

fn accepts_dashboard_password(
    config: &Config,
    stored: &Option<AuthSettings>,
    password: &str,
) -> (r: bool)
    requires
        hash_is_checkable(*stored),
    ensures
        r == dashboard_accepts(*config, *stored, password@),
{
    match stored {
        Some(s) => match &s.password_hash {
            Some(hash) => verify_password_hash(trim(password), hash.as_str()),
            None => environment_accepts(config, trim(password)),
        },
        None => environment_accepts(config, trim(password)),
    }
}

/// Why a login failed.
pub enum LoginError {
    Refused(Refusal),
    /// No token could be issued.
    TokenNotIssued(IssueError),
}

/// Checks who logs in.
pub fn check_login(
    config: &Config,
    req: &LoginRequest,
    stored: &Option<AuthSettings>,
    configured_user_id: Option<String>,
) -> (r: Result<AuthUser, Refusal>)
    requires
        hash_is_checkable(*stored),
    ensures
        match login_user(*config, *req, *stored, opt_string(configured_user_id)) {
            Ok(u) => r matches Ok(v) && v@ == u,
            Err(m) => r matches Err(e) && refuses(e, 401, m),
        },
{
    match config.auth.mode {
        AuthMode::MultiUser => {
            let username = match &req.username {
                Some(u) => u.as_str(),
                None => "",
            };
            let username = trim(username);
            if username.is_empty() {
                return Err(refusal(401, "Username required"));
            }
            match find_account(&config.auth.users, username) {
                Some(account) => {
                    let valid = !is_blank(account.password.as_str()) && constant_time_eq(
                        trim(req.password.as_str()),
                        trim(account.password.as_str()),
                    );
                    if valid {
                        Ok(
                            AuthUser {
                                id: effective_user_id(account),
                                username: account.username.clone(),
                            },
                        )
                    } else {
                        Err(refusal(401, "Invalid username or password"))
                    }
                },
                None => {
                    // An unknown name takes as long as a wrong password.
                    constant_time_eq(trim(req.password.as_str()), "dummy_password_for_timing");
                    Err(refusal(401, "Invalid username or password"))
                },
            }
        },
        AuthMode::SingleTenant | AuthMode::Disabled => {
            if accepts_dashboard_password(config, stored, req.password.as_str()) {
                Ok(implicit_single_tenant_user_from_id(config, configured_user_id))
            } else {
                Err(refusal(401, "Invalid password"))
            }
        },
    }
}

/// Whether `r` logs somebody in at the time `now`: with a token for the user, or a refusal.
pub open spec fn logs_in(
    config: Config,
    req: LoginRequest,
    stored: Option<AuthSettings>,
    configured: Option<Seq<char>>,
    now: int,
    r: Result<LoginResponse, LoginError>,
) -> bool {
    match login_user(config, req, stored, configured) {
        Err(m) => r matches Err(LoginError::Refused(e)) && refuses(e, 401, m),
        Ok(u) => match config.auth.jwt_secret {
            None => r matches Err(LoginError::Refused(e)) && refuses(
                e,
                500,
                "JWT_SECRET not configured"@,
            ),
            Some(secret) => {
                let c = user_claims(u.id, u.username, config.auth.jwt_ttl_days as int, now);
                if !expires_at_date(config.auth.jwt_ttl_days as int, now) {
                    r matches Err(LoginError::TokenNotIssued(IssueError::NoDate))
                } else {
                    match signed_token(claims_text(c), secret@) {
                        Some(token) => r matches Ok(l) && l.token@ == token && l.exp == c.exp
                            && holds_claims(token, secret@, c),
                        None => r matches Err(LoginError::TokenNotIssued(IssueError::NotSigned)),
                    }
                }
            },
        },
    }
}

/// Logs somebody in at the time `now`: a token for the user, or a refusal.
pub fn login_at(
    config: &Config,
    req: &LoginRequest,
    stored: &Option<AuthSettings>,
    configured_user_id: Option<String>,
    now: i64,
) -> (r: Result<LoginResponse, LoginError>)
    requires
        hash_is_checkable(*stored),
        MIN_TIMESTAMP <= now <= MAX_TIMESTAMP,
    ensures
        logs_in(*config, *req, *stored, opt_string(configured_user_id), now as int, r),
{
    let user = match check_login(config, req, stored, configured_user_id) {
        Ok(u) => u,
        Err(e) => {
            return Err(LoginError::Refused(e));
        },
    };
    match &config.auth.jwt_secret {
        Some(secret) => {
            if !check_expiry(config.auth.jwt_ttl_days, now) {
                return Err(LoginError::TokenNotIssued(IssueError::NoDate));
            }
            match issue_jwt_at(
                secret.as_str(),
                config.auth.jwt_ttl_days,
                user.id.as_str(),
                user.username.as_str(),
                now,
            ) {
                Some((token, exp)) => Ok(LoginResponse { token, exp }),
                None => Err(LoginError::TokenNotIssued(IssueError::NotSigned)),
            }
        },
        None => Err(LoginError::Refused(refusal(500, "JWT_SECRET not configured"))),
    }
}

/// Logs somebody in now: a token for the user, or a refusal.
pub fn login(
    config: &Config,
    req: &LoginRequest,
    stored: &Option<AuthSettings>,
    configured_user_id: Option<String>,
) -> (r: Result<LoginResponse, LoginError>)
    requires
        hash_is_checkable(*stored),
    ensures
        exists|now: i64|
            0 <= now <= MAX_TIMESTAMP && #[trigger] logs_in(
                *config,
                *req,
                *stored,
                opt_string(configured_user_id),
                now as int,
                r,
            ),
{
    let (moment, _text) = utc_now();
    login_at(config, req, stored, configured_user_id, moment.seconds)
}

/// A refused login does not tell a name that is unknown from a password that is wrong.
pub proof fn law_refusal_tells_nothing(
    config: Config,
    a: LoginRequest,
    b: LoginRequest,
    stored: Option<AuthSettings>,
    configured: Option<Seq<char>>,
)
    requires
        config.auth.mode == AuthMode::MultiUser,
        a.username matches Some(n) && !blank(n@),
        b.username matches Some(n) && !blank(n@),
        login_user(config, a, stored, configured) is Err,
        login_user(config, b, stored, configured) is Err,
    ensures
        login_user(config, a, stored, configured) == login_user(config, b, stored, configured),
{
}

/// The token of a login lets in the user who logged in until it has expired and the leeway
/// is over, and nobody from then on.
pub proof fn law_login_token_passes(
    config: Config,
    req: LoginRequest,
    stored: Option<AuthSettings>,
    configured: Option<Seq<char>>,
    now: i64,
    r: Result<LoginResponse, LoginError>,
    at: u64,
)
    requires
        logs_in(config, req, stored, configured, now as int, r),
        r is Ok,
    ensures
        ({
            let u = login_user(config, req, stored, configured)->Ok_0;
            let claims = signed_claims(config, r->Ok_0.token@, at);
            &&& login_user(config, req, stored, configured) is Ok
            &&& counts_at(r->Ok_0.exp as int, at) ==> {
                &&& claims is Some && claims->0.sub == u.id
                &&& token_passes(config, claims)
                &&& request_user(config, claims, configured) matches Ok(v) && v.id == u.id
            }
            &&& !counts_at(r->Ok_0.exp as int, at) ==> {
                &&& claims is None
                &&& token_passes(config, claims) == !config.auth.required
                &&& request_user(config, claims, configured) is Err
            }
        }),
{
    let u = login_user(config, req, stored, configured)->Ok_0;
    let c = user_claims(u.id, u.username, config.auth.jwt_ttl_days as int, now as int);
    law_token_says_claims(r->Ok_0.token@, config.auth.jwt_secret->0@, c, at);
    if config.auth.mode == AuthMode::MultiUser {
        lemma_named_account_has_id(config.auth.users@, match req.username {
            Some(u) => trimmed(u@),
            None => trimmed(""@),
        });
    }
}

proof fn lemma_named_account_has_id(users: Seq<UserAccount>, name: Seq<char>)
    ensures
        account_named(users, name) matches Some(u) ==> (account_with_id(users, effective_id(u))
            matches Some(v) && v.id == effective_id(u)),
    decreases users.len(),
{
    if users.len() > 0 {
        lemma_named_account_has_id(users.drop_first(), name);
    }
}

// ---------------------------------------------------------------------------
// Requests
// ---------------------------------------------------------------------------

/// The token in an `Authorization` header; empty where there is none.
pub open spec fn bearer(header: Seq<char>) -> Seq<char> {
    match without_prefix(header, "Bearer "@) {
        Some(t) => t,
        None => match without_prefix(header, "bearer "@) {
            Some(t) => t,
            None => Seq::empty(),
        },
    }
}

pub fn bearer_token(header: &str) -> (r: &str)
    ensures
        r@ == bearer(header@),
{
    match strip_prefix(header, "Bearer ") {
        Some(t) => t,
        None => match strip_prefix(header, "bearer ") {
            Some(t) => t,
            None => {
                proof {
                    reveal_strlit("");
                    assert(""@ =~= Seq::<char>::empty());
                }
                ""
            },
        },
    }
}

/// The user of a request whose token says `claims`, or the message with which it is
/// refused.
pub open spec fn request_user(
    config: Config,
    claims: Option<ClaimsView>,
    configured: Option<Seq<char>>,
) -> Result<UserView, Seq<char>> {
    match claims {
        None => Err("Invalid or expired token"@),
        Some(c) => match config.auth.mode {
            AuthMode::MultiUser => match account_with_id(config.auth.users@, c.sub) {
                Some(u) => Ok(u),
                None => Err("Invalid user"@),
            },
            AuthMode::SingleTenant => Ok(UserView { id: c.sub, username: c.usr }),
            AuthMode::Disabled => Ok(tenant(config.dev_mode, configured)),
        },
    }
}

/// Whether `r` lets the user through, or refuses as unauthorised with the message.
pub open spec fn answers_request(
    r: Result<AuthUser, Refusal>,
    outcome: Result<UserView, Seq<char>>,
) -> bool {
    match outcome {
        Ok(u) => r matches Ok(v) && v@ == u,
        Err(m) => r matches Err(e) && refuses(e, 401, m),
    }
}

/// The user of a request, given what its token says.
pub fn user_of_request(
    config: &Config,
    claims: Option<Claims>,
    configured_user_id: Option<String>,
) -> (r: Result<AuthUser, Refusal>)
    ensures
        answers_request(
            r,
            request_user(*config, opt_claims(claims), opt_string(configured_user_id)),
        ),
{
    match claims {
        None => Err(refusal(401, "Invalid or expired token")),
        Some(c) => match config.auth.mode {
            AuthMode::MultiUser => match user_for_claims(&c, &config.auth.users) {
                Some(u) => Ok(u),
                None => Err(refusal(401, "Invalid user")),
            },
            AuthMode::SingleTenant => Ok(AuthUser { id: c.sub, username: c.usr }),
            AuthMode::Disabled => Ok(
                implicit_single_tenant_user_from_id(config, configured_user_id),
            ),
        },
    }
}

/// The user of a request with an `Authorization` header, or the refusal. In
/// development every request is let through; without a secret none is. Otherwise the
/// user is the one that the token names at the time that the clock shows.
pub fn require_auth(config: &Config, header: &str, configured_user_id: Option<String>) -> (r: Result<
    AuthUser,
    Refusal,
>)
    ensures
        config.dev_mode ==> (r matches Ok(v) && v@ == tenant(
            true,
            opt_string(configured_user_id),
        )),
        !config.dev_mode && config.auth.jwt_secret is None ==> (r matches Err(e) && refuses(
            e,
            500,
            "JWT_SECRET not configured"@,
        )),
        !config.dev_mode && config.auth.jwt_secret is Some && bearer(header@).len() == 0 ==> (
        r matches Err(e) && refuses(e, 401, "Missing Authorization header"@)),
        !config.dev_mode && config.auth.jwt_secret is Some && bearer(header@).len() > 0 ==> (
        exists|now: u64|
            answers_request(
                r,
                request_user(
                    *config,
                    #[trigger] signed_claims(*config, bearer(header@), now),
                    opt_string(configured_user_id),
                ),
            )),
{
    if config.dev_mode {
        return Ok(implicit_single_tenant_user_from_id(config, configured_user_id));
    }
    match &config.auth.jwt_secret {
        None => Err(refusal(500, "JWT_SECRET not configured")),
        Some(secret) => {
            let token = bearer_token(header);
            if token.is_empty() {
                return Err(refusal(401, "Missing Authorization header"));
            }
            let claims = verify_jwt(token, secret.as_str());
            proof {
                let now: u64 = choose|now: u64|
                    opt_claims(claims) == #[trigger] said_at(token@, secret@, now);
                assert(signed_claims(*config, bearer(header@), now) == opt_claims(claims));
            }
            user_of_request(config, claims, configured_user_id)
        },
    }
}

/// Outside development nobody gets in without a token that was signed with the secret
/// of the server and has not expired.
pub proof fn law_no_token_no_entry(
    config: Config,
    header: Seq<char>,
    configured: Option<Seq<char>>,
    now: u64,
    r: Result<AuthUser, Refusal>,
)
    requires
        !config.dev_mode,
        signed_claims(config, bearer(header), now) is None,
        answers_request(
            r,
            request_user(config, signed_claims(config, bearer(header), now), configured),
        ),
    ensures
        r matches Err(e) && e.status == 401,
{
}

// ---------------------------------------------------------------------------
// Status and change of the password
// ---------------------------------------------------------------------------

#[derive(Debug)]
pub struct AuthStatusResponse {
    pub auth_mode: String,
    /// `dashboard`, `environment` or `none`.
    pub password_source: String,
    pub password_changed_at: Option<String>,
    pub dev_mode: bool,
}

pub open spec fn mode_name(mode: AuthMode) -> Seq<char> {
    match mode {
        AuthMode::Disabled => "disabled"@,
        AuthMode::SingleTenant => "single_tenant"@,
        AuthMode::MultiUser => "multi_user"@,
    }
}

/// Where the password of the dashboard comes from.
pub open spec fn source_name(config: Config, stored: Option<AuthSettings>) -> Seq<char> {
    if dashboard_hash(stored) is Some {
        "dashboard"@
    } else if config.auth.dashboard_password is Some {
        "environment"@
    } else {
        "none"@
    }
}

fn has_stored_hash(stored: &Option<AuthSettings>) -> (r: bool)
    ensures
        r == (dashboard_hash(*stored) is Some),
{
    match stored {
        Some(s) => s.password_hash.is_some(),
        None => false,
    }
}

/// How the dashboard is protected at present.
pub fn auth_status(config: &Config, stored: &Option<AuthSettings>) -> (r: AuthStatusResponse)
    ensures
        r.auth_mode@ == mode_name(config.auth.mode),
        r.password_source@ == source_name(*config, *stored),
        r.password_changed_at == match *stored {
            Some(s) => s.password_changed_at,
            None => None,
        },
        r.dev_mode == config.dev_mode,
{
    let auth_mode = match config.auth.mode {
        AuthMode::Disabled => "disabled",
        AuthMode::SingleTenant => "single_tenant",
        AuthMode::MultiUser => "multi_user",
    };
    let password_source = if has_stored_hash(stored) {
        "dashboard"
    } else if config.auth.dashboard_password.is_some() {
        "environment"
    } else {
        "none"
    };
    let password_changed_at = match stored {
        Some(s) => clone_opt(&s.password_changed_at),
        None => None,
    };
    AuthStatusResponse {
        auth_mode: auth_mode.to_string(),
        password_source: password_source.to_string(),
        password_changed_at,
        dev_mode: config.dev_mode,
    }
}

pub struct ChangePasswordRequest {
    pub current_password: Option<String>,
    pub new_password: String,
}

/// The shortest new password, in bytes.
pub const MIN_PASSWORD_BYTES: usize = 8;

/// Why a change of the password is refused, if it is.
pub open spec fn change_refused(
    config: Config,
    stored: Option<AuthSettings>,
    req: ChangePasswordRequest,
) -> Option<(u16, Seq<char>)> {
    let current = match req.current_password {
        Some(p) => trimmed(p@),
        None => trimmed(""@),
    };
    let exists_one = dashboard_hash(stored) is Some || environment_password(config) is Some;
    let current_fits = match dashboard_hash(stored) {
        Some(hash) => verifies(current, hash),
        None => environment_password(config) == Some(current),
    };
    if config.auth.mode == AuthMode::MultiUser {
        Some(
            (
                400,
                "Password change is not available in multi-user mode. Manage passwords via the SANDBOXED_USERS environment variable."@,
            ),
        )
    } else if exists_one && !config.dev_mode && current.len() == 0 {
        Some((400, "Current password is required"@))
    } else if exists_one && !config.dev_mode && !current_fits {
        Some((401, "Current password is incorrect"@))
    } else if encode_utf8(trimmed(req.new_password@)).len() < MIN_PASSWORD_BYTES {
        Some((400, "New password must be at least 8 characters"@))
    } else {
        None
    }
}

/// Whether a change of the password is allowed.
pub fn check_password_change(
    config: &Config,
    stored: &Option<AuthSettings>,
    req: &ChangePasswordRequest,
) -> (r: Result<(), Refusal>)
    requires
        hash_is_checkable(*stored),
    ensures
        match change_refused(*config, *stored, *req) {
            Some((status, m)) => r matches Err(e) && refuses(e, status, m),
            None => r is Ok,
        },
{
    if config.auth.mode == AuthMode::MultiUser {
        return Err(
            refusal(
                400,
                "Password change is not available in multi-user mode. Manage passwords via the SANDBOXED_USERS environment variable.",
            ),
        );
    }
    let stored_one = has_stored_hash(stored);
    let in_environment = match &config.auth.dashboard_password {
        Some(p) => !p.as_str().is_empty(),
        None => false,
    };
    if (stored_one || in_environment) && !config.dev_mode {
        let current = match &req.current_password {
            Some(p) => p.as_str(),
            None => "",
        };
        let current = trim(current);
        if current.is_empty() {
            return Err(refusal(400, "Current password is required"));
        }
        let valid = match stored {
            Some(s) => match &s.password_hash {
                Some(hash) => verify_password_hash(current, hash.as_str()),
                None => environment_accepts(config, current),
            },
            None => environment_accepts(config, current),
        };
        if !valid {
            return Err(refusal(401, "Current password is incorrect"));
        }
    }
    if byte_len(trim(req.new_password.as_str())) < MIN_PASSWORD_BYTES {
        return Err(refusal(400, "New password must be at least 8 characters"));
    }
    Ok(())
}

/// Whether `r` changes the password at the time that is written `now`: it gives what is to
/// be stored from then on, or a refusal.
pub open spec fn changes_password(
    config: Config,
    stored: Option<AuthSettings>,
    req: ChangePasswordRequest,
    now: Seq<char>,
    r: Result<AuthSettings, Refusal>,
) -> bool {
    match change_refused(config, stored, req) {
        Some((status, m)) => r matches Err(e) && refuses(e, status, m),
        None => r matches Ok(s) && opt_string(s.password_changed_at) == Some(now) && (
        s.password_hash matches Some(h) && is_hash_of(trimmed(req.new_password@), h@) && verifies(
            trimmed(req.new_password@),
            h@,
        )) && hash_is_checkable(Some(s)),
    }
}

/// Changes the password at the time that is written `now`: what is to be stored from then
/// on, or a refusal.
pub fn change_password_at(
    config: &Config,
    stored: &Option<AuthSettings>,
    req: &ChangePasswordRequest,
    now: String,
) -> (r: Result<AuthSettings, Refusal>)
    requires
        hash_is_checkable(*stored),
    ensures
        changes_password(*config, *stored, *req, now@, r),
{
    match check_password_change(config, stored, req) {
        Err(e) => Err(e),
        Ok(_) => {
            let hashed = hash_password(trim(req.new_password.as_str()));
            proof {
                law_own_hash_is_accepted(trimmed(req.new_password@), hashed@);
            }
            Ok(AuthSettings { password_hash: Some(hashed), password_changed_at: Some(now) })
        },
    }
}

/// Changes the password now: what is to be stored from then on, or a refusal.
pub fn change_password(
    config: &Config,
    stored: &Option<AuthSettings>,
    req: &ChangePasswordRequest,
) -> (r: Result<AuthSettings, Refusal>)
    requires
        hash_is_checkable(*stored),
    ensures
        exists|now: Moment|
            is_present(now) && changes_password(
                *config,
                *stored,
                *req,
                #[trigger] rfc3339(now.seconds, now.nanos),
                r,
            ),
{
    let (moment, text) = utc_now();
    let ghost written = text@;
    let r = change_password_at(config, stored, req, text);
    assert(written == rfc3339(moment.seconds, moment.nanos));
    r
}

/// Once the password was changed, the new one is accepted, and what was stored can be
/// checked.
pub proof fn law_new_password_logs_in(
    config: Config,
    stored: Option<AuthSettings>,
    req: ChangePasswordRequest,
    now: Seq<char>,
    r: Result<AuthSettings, Refusal>,
)
    requires
        changes_password(config, stored, req, now, r),
        r is Ok,
    ensures
        hash_is_checkable(Some(r->Ok_0)),
        dashboard_accepts(config, Some(r->Ok_0), req.new_password@),
{
}

// ---------------------------------------------------------------------------
// Laws of users, logins and requests
// ---------------------------------------------------------------------------

/// A refusal says its status and its message.
pub proof fn law_refusal_is_what_it_says(r: Refusal, status: u16, message: Seq<char>)
    ensures
        refuses(r, status, message) == (r.status == status && r.message@ == message),
{
}

/// The only user: `dev` in development, else the one that is configured, in the first of two
/// places that is set at all, or `default`.
pub proof fn law_the_only_user(
    id: Seq<char>,
    a: Seq<char>,
    b: Seq<char>,
    configured: Option<Seq<char>>,
    second: Option<Seq<char>>,
)
    requires
        id.len() > 0 && !is_whitespace(id[0]) && !is_whitespace(id.last()),
        forall|i: int| 0 <= i < a.len() ==> is_whitespace(#[trigger] a[i]),
        forall|i: int| 0 <= i < b.len() ==> is_whitespace(#[trigger] b[i]),
    ensures
        tenant(true, configured) == (UserView { id: "dev"@, username: "dev"@ }),
        tenant(false, Some(id)) == (UserView { id, username: id }),
        tenant(false, None) == (UserView { id: "default"@, username: "default"@ }),
        tenant_id(Some(a + id + b), second) == Some(id),
        tenant_id(None, Some(a + id + b)) == Some(id),
        tenant_id(Some(a), Some(id)) is None,
        tenant_id(None, None) is None,
        nonblank(Some(a + id + b)) == Some(id),
        nonblank(Some(a)) is None,
        nonblank(None) is None,
{
    law_trim_keeps_the_middle(a, id, b, CharSet::Whitespace);
    let none = Seq::<char>::empty();
    law_trim_keeps_the_middle(a, none, none, CharSet::Whitespace);
    assert(a + none + none =~= a);
}

/// The account of an identifier is the first whose own it is, or whose name it is where the
/// account has none.
pub proof fn law_account_of_an_identifier(
    before: Seq<UserAccount>,
    u: UserAccount,
    after: Seq<UserAccount>,
    id: Seq<char>,
)
    requires
        (u.id@.len() > 0 && u.id@ == id) || (u.id@.len() == 0 && u.username@ == id),
        forall|i: int|
            0 <= i < before.len() ==> !((#[trigger] before[i]).id@ == id && id.len() > 0) && !(
            before[i].id@.len() == 0 && before[i].username@ == id),
    ensures
        account_with_id(before + seq![u] + after, id) == Some(
            UserView { id, username: u.username@ },
        ),
        account_with_id(before, id) is None,
    decreases before.len(),
{
    let all = before + seq![u] + after;
    if before.len() == 0 {
        assert(all[0] == u);
    } else {
        assert(all[0] == before[0]);
        let fewer = before.drop_first();
        assert forall|i: int| 0 <= i < fewer.len() implies !((#[trigger] fewer[i]).id@ == id
            && id.len() > 0) && !(fewer[i].id@.len() == 0 && fewer[i].username@ == id) by {
            assert(fewer[i] == before[i + 1]);
        }
        assert(all.drop_first() =~= fewer + seq![u] + after);
        law_account_of_an_identifier(fewer, u, after, id);
    }
}

/// The account of a name is the first whose name it is, but for whitespace.
pub proof fn law_account_of_a_name(
    before: Seq<UserAccount>,
    u: UserAccount,
    after: Seq<UserAccount>,
    name: Seq<char>,
)
    requires
        trimmed(u.username@) == name,
        forall|i: int| 0 <= i < before.len() ==> trimmed((#[trigger] before[i]).username@) != name,
    ensures
        account_named(before + seq![u] + after, name) == Some(u),
        account_named(before, name) is None,
    decreases before.len(),
{
    let all = before + seq![u] + after;
    if before.len() == 0 {
        assert(all[0] == u);
    } else {
        assert(all[0] == before[0]);
        let fewer = before.drop_first();
        assert forall|i: int| 0 <= i < fewer.len() implies trimmed(
            (#[trigger] fewer[i]).username@,
        ) != name by {
            assert(fewer[i] == before[i + 1]);
        }
        assert(all.drop_first() =~= fewer + seq![u] + after);
        law_account_of_a_name(fewer, u, after, name);
    }
}

/// Among several users, one logs in with the name and the password of an account, but for
/// whitespace, and never with an empty password or none at all.
pub proof fn law_one_of_several_logs_in(
    config: Config,
    req: LoginRequest,
    stored: Option<AuthSettings>,
    configured: Option<Seq<char>>,
    u: UserAccount,
)
    requires
        config.auth.mode == AuthMode::MultiUser,
        req.username matches Some(n) && trimmed(n@).len() > 0 && account_named(
            config.auth.users@,
            trimmed(n@),
        ) == Some(u),
    ensures
        login_user(config, req, stored, configured) == if trimmed(u.password@).len() > 0 && trimmed(
            req.password@,
        ) == trimmed(u.password@) {
            Ok(
                UserView {
                    id: if u.id@.len() > 0 {
                        u.id@
                    } else {
                        u.username@
                    },
                    username: u.username@,
                },
            )
        } else {
            Err("Invalid username or password"@)
        },
{
}

/// Names that are missing or unknown do not log in.
pub proof fn law_unknown_names_do_not_log_in(
    config: Config,
    req: LoginRequest,
    stored: Option<AuthSettings>,
    configured: Option<Seq<char>>,
)
    requires
        config.auth.mode == AuthMode::MultiUser,
    ensures
        req.username matches Some(n) && trimmed(n@).len() == 0 ==> login_user(
            config,
            req,
            stored,
            configured,
        ) == Err::<UserView, Seq<char>>("Username required"@),
        req.username is None ==> login_user(config, req, stored, configured) is Err,
        req.username matches Some(n) && trimmed(n@).len() > 0 && account_named(
            config.auth.users@,
            trimmed(n@),
        ) is None ==> login_user(config, req, stored, configured) == Err::<UserView, Seq<char>>(
            "Invalid username or password"@,
        ),
{
    reveal_strlit("");
    let none = Seq::<char>::empty();
    law_trim_keeps_the_middle(none, none, none, CharSet::Whitespace);
    assert(none + none + none =~= none);
    assert(""@ =~= none);
}

/// The only user logs in with the password that was stored, which counts before the one in the
/// environment; an empty password in the environment is none.
pub proof fn law_only_user_logs_in(
    config: Config,
    req: LoginRequest,
    stored: Option<AuthSettings>,
    configured: Option<Seq<char>>,
    hash: String,
    password: String,
)
    requires
        config.auth.mode != AuthMode::MultiUser,
    ensures
        ({
            let given = trimmed(req.password@);
            let user = tenant(config.dev_mode, configured);
            let r = login_user(config, req, stored, configured);
            let refused = Err::<UserView, Seq<char>>("Invalid password"@);
            let has_hash = stored matches Some(s) && s.password_hash == Some(hash);
            let no_hash = stored matches Some(s) ==> s.password_hash is None;
            &&& has_hash ==> r == if verifies(given, hash@) {
                Ok(user)
            } else {
                refused
            }
            &&& no_hash && config.auth.dashboard_password == Some(password) ==> r == if given
                == password@ && password@.len() > 0 {
                Ok(user)
            } else {
                refused
            }
            &&& no_hash && config.auth.dashboard_password is None ==> r == refused
        }),
{
}

/// A login is answered with a token for the user, which lasts as many days as are configured,
/// and a refused one says why.
pub proof fn law_login_is_answered(
    config: Config,
    req: LoginRequest,
    stored: Option<AuthSettings>,
    configured: Option<Seq<char>>,
    now: i64,
    r: Result<LoginResponse, LoginError>,
)
    requires
        logs_in(config, req, stored, configured, now as int, r),
    ensures
        match login_user(config, req, stored, configured) {
            Err(m) => r is Err && r->Err_0 is Refused && r->Err_0->Refused_0.status == 401
                && r->Err_0->Refused_0.message@ == m,
            Ok(u) => {
                &&& config.auth.jwt_secret is None ==> r is Err && r->Err_0 is Refused
                    && r->Err_0->Refused_0.status == 500
                &&& r is Ok ==> r->Ok_0.exp == now + 86_400 * (if config.auth.jwt_ttl_days >= 1 {
                    config.auth.jwt_ttl_days as int
                } else {
                    1
                })
            },
        },
{
}

/// Whom a token lets through.
pub proof fn law_whom_a_token_lets_through(config: Config, claims: Option<ClaimsView>)
    ensures
        !config.auth.required ==> token_passes(config, claims),
        config.auth.required && (config.auth.jwt_secret is None || claims is None)
            ==> !token_passes(config, claims),
        config.auth.required && config.auth.jwt_secret is Some ==> (claims matches Some(c) ==> {
            &&& config.auth.mode != AuthMode::MultiUser ==> token_passes(config, claims)
            &&& config.auth.mode == AuthMode::MultiUser ==> token_passes(config, claims) == (
            account_with_id(config.auth.users@, c.sub) is Some)
        }),
{
}

/// Who a request comes from.
pub proof fn law_user_of_a_request(
    config: Config,
    c: ClaimsView,
    configured: Option<Seq<char>>,
    r: Result<AuthUser, Refusal>,
)
    ensures
        request_user(config, None, configured) == Err::<UserView, Seq<char>>(
            "Invalid or expired token"@,
        ),
        config.auth.mode == AuthMode::SingleTenant ==> request_user(config, Some(c), configured)
            == Ok::<UserView, Seq<char>>(UserView { id: c.sub, username: c.usr }),
        config.auth.mode == AuthMode::MultiUser ==> request_user(config, Some(c), configured)
            == match account_with_id(config.auth.users@, c.sub) {
            Some(u) => Ok(u),
            None => Err("Invalid user"@),
        },
        config.auth.mode == AuthMode::Disabled ==> request_user(config, Some(c), configured)
            == Ok::<UserView, Seq<char>>(tenant(config.dev_mode, configured)),
        answers_request(r, request_user(config, None, configured)) ==> r is Err
            && r->Err_0.status == 401,
{
}

/// The token of a header is what stands behind `Bearer`, in either of its spellings.
pub proof fn law_token_of_a_header(token: Seq<char>, header: Seq<char>)
    ensures
        bearer("Bearer "@ + token) == token,
        bearer("bearer "@ + token) == token,
        !has_prefix(header, "Bearer "@) && !has_prefix(header, "bearer "@) ==> bearer(header).len()
            == 0,
{
    reveal_strlit("Bearer ");
    reveal_strlit("bearer ");
    law_parts_of_a_text(Seq::empty(), "Bearer "@, token);
    law_parts_of_a_text(Seq::empty(), "bearer "@, token);
    let h = "bearer "@ + token;
    assert(h.take(7)[0] == 'b' && "Bearer "@[0] == 'B' && "Bearer "@.len() == 7);
}

/// Who may change the password: whoever knows the present one, or anybody in development or
/// where there is none; never one of several users. The new one has at least 8 bytes.
pub proof fn law_who_may_change_the_password(
    config: Config,
    stored: Option<AuthSettings>,
    req: ChangePasswordRequest,
    current: String,
    hash: String,
)
    ensures
        ({
            let r = change_refused(config, stored, req);
            let short = encode_utf8(trimmed(req.new_password@)).len() < 8;
            let single = config.auth.mode != AuthMode::MultiUser;
            let has_hash = stored matches Some(s) && s.password_hash == Some(hash);
            let no_hash = stored matches Some(s) ==> s.password_hash is None;
            let no_password = no_hash && (config.auth.dashboard_password matches Some(p) ==> p@.len()
                == 0);
            &&& !single ==> (r matches Some((status, _)) && status == 400)
            &&& single && (config.dev_mode || no_password) ==> r == if short {
                Some((400u16, "New password must be at least 8 characters"@))
            } else {
                None
            }
            &&& single && !config.dev_mode && has_hash && req.current_password == Some(current)
                && trimmed(current@).len() > 0 ==> {
                &&& !verifies(trimmed(current@), hash@) ==> r == Some(
                    (401u16, "Current password is incorrect"@),
                )
                &&& verifies(trimmed(current@), hash@) && !short ==> r is None
                &&& verifies(trimmed(current@), hash@) && short ==> r is Some
            }
            &&& single && !config.dev_mode && has_hash && req.current_password == Some(current)
                && trimmed(current@).len() == 0 ==> r == Some(
                (400u16, "Current password is required"@),
            )
        }),
{
}

/// Where the password comes from, and how the ways to tell users apart are called.
pub proof fn law_status_names(config: Config, stored: Option<AuthSettings>)
    ensures
        mode_name(AuthMode::Disabled) == "disabled"@,
        mode_name(AuthMode::SingleTenant) == "single_tenant"@,
        mode_name(AuthMode::MultiUser) == "multi_user"@,
        stored matches Some(s) && s.password_hash is Some ==> source_name(config, stored)
            == "dashboard"@,
        stored is None && config.auth.dashboard_password is Some ==> source_name(config, stored)
            == "environment"@,
        stored is None && config.auth.dashboard_password is None ==> source_name(config, stored)
            == "none"@,
{
}

} // verus!
