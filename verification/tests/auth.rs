use sandboxed::auth::{
    auth_status, bearer_token, change_password, change_password_at, check_login,
    check_password_change, configured_single_tenant_user_id, effective_user_id,
    implicit_single_tenant_user, implicit_single_tenant_user_from_id, login, login_at, nonblank_text, require_auth, user_of_request,
    verify_claims_for_config, verify_token_for_config, AuthConfig, AuthMode, AuthSettings,
    ChangePasswordRequest, Config, LoginError, LoginRequest, Refusal, UserAccount,
};
use sandboxed::password::{constant_time_eq, hash_password, hash_password_with, verify_password_hash};
use sandboxed::token::{
    check_expiry, claims_from_text, issue_jwt, issue_jwt_at, mint_service_jwt,
    mint_service_jwt_at, sign_claims, verify_jwt, Claims, IssueError,
};

fn test_config(dev_mode: bool) -> Config {
    Config {
        dev_mode,
        host: "127.0.0.1".to_string(),
        port: 3000,
        auth: AuthConfig {
            mode: AuthMode::Disabled,
            required: false,
            jwt_secret: None,
            jwt_ttl_days: 30,
            dashboard_password: None,
            users: Vec::new(),
        },
    }
}

#[test]
fn implicit_single_tenant_user_defaults_to_default_outside_dev_mode() {
    let user = implicit_single_tenant_user_from_id(&test_config(false), None);
    assert_eq!(user.id, "default");
    assert_eq!(user.username, "default");
}

#[test]
fn implicit_single_tenant_user_honors_override() {
    let user =
        implicit_single_tenant_user_from_id(&test_config(false), Some("legacy-prod".into()));
    assert_eq!(user.id, "legacy-prod");
    assert_eq!(user.username, "legacy-prod");
}

fn now() -> i64 {
    std::time::SystemTime::now()
        .duration_since(std::time::UNIX_EPOCH)
        .unwrap()
        .as_secs() as i64
}

fn text(s: &str) -> Option<String> {
    Some(s.to_string())
}

fn said<T>(r: Result<T, Refusal>) -> (u16, String) {
    match r {
        Ok(_) => panic!("not refused"),
        Err(e) => (e.status, e.message),
    }
}

#[test]
fn the_only_user_is_configured_by_the_environment() {
    assert_eq!(configured_single_tenant_user_id(&text(" a "), &text("b")), text("a"));
    assert_eq!(configured_single_tenant_user_id(&None, &text("b")), text("b"));
    // A blank first value hides the second.
    assert_eq!(configured_single_tenant_user_id(&text(" "), &text("b")), None);
    let user = implicit_single_tenant_user(&test_config(true), &text("a"), &None);
    assert_eq!((user.id.as_str(), user.username.as_str()), ("dev", "dev"));
    let user = implicit_single_tenant_user(&test_config(false), &text("a"), &None);
    assert_eq!(user.id, "a");
    assert_eq!(nonblank_text(&text("  ")), None);
}

fn account(id: &str, username: &str, password: &str) -> UserAccount {
    UserAccount {
        id: id.to_string(),
        username: username.to_string(),
        password: password.to_string(),
    }
}

fn multi_user() -> Config {
    let mut c = test_config(false);
    c.auth.mode = AuthMode::MultiUser;
    c.auth.required = true;
    c.auth.jwt_secret = text("secret");
    c.auth.users = vec![account("", "ada", "pw1"), account("u2", "bob", ""), account("u3", "cy ", "pw3 ")];
    c
}

fn single_tenant() -> Config {
    let mut c = test_config(false);
    c.auth.mode = AuthMode::SingleTenant;
    c.auth.required = true;
    c.auth.jwt_secret = text("secret");
    c.auth.dashboard_password = text("hunter22");
    c
}

fn request(username: Option<&str>, password: &str) -> LoginRequest {
    LoginRequest {
        username: username.map(String::from),
        password: password.to_string(),
    }
}

#[test]
fn accounts_are_found_by_name() {
    assert_eq!(effective_user_id(&account("", "ada", "")), "ada");
    assert_eq!(effective_user_id(&account("u2", "bob", "")), "u2");
    let c = multi_user();
    let try_login = |u: Option<&str>, p: &str| check_login(&c, &request(u, p), &None, None);
    let user = try_login(Some(" ada "), " pw1 ").unwrap();
    assert_eq!((user.id.as_str(), user.username.as_str()), ("ada", "ada"));
    let user = try_login(Some("cy"), "pw3").unwrap();
    assert_eq!((user.id.as_str(), user.username.as_str()), ("u3", "cy "));
    assert_eq!(said(try_login(None, "x")), (401, "Username required".to_string()));
    let refused = (401, "Invalid username or password".to_string());
    assert_eq!(said(try_login(Some("ada"), "pw2")), refused);
    assert_eq!(said(try_login(Some("eve"), "pw1")), refused);
    // An account without a password lets nobody in.
    assert_eq!(said(try_login(Some("bob"), "")), refused);
}

#[test]
fn a_stored_password_comes_before_that_of_the_environment() {
    let c = single_tenant();
    let try_login = |p: &str, s: &Option<AuthSettings>| check_login(&c, &request(None, p), s, None);
    assert_eq!(try_login(" hunter22 ", &None).unwrap().id, "default");
    assert_eq!(said(try_login("x", &None)), (401, "Invalid password".to_string()));
    let stored = Some(AuthSettings {
        password_hash: Some(hash_password("correct horse")),
        password_changed_at: None,
    });
    assert!(try_login("correct horse", &stored).is_ok());
    assert!(try_login("hunter22", &stored).is_err());
    let mut open = single_tenant();
    open.auth.dashboard_password = text("");
    assert!(check_login(&open, &request(None, ""), &None, None).is_err());
}

#[test]
fn a_login_token_lets_its_user_in() {
    for (config, name, password, id) in [
        (multi_user(), Some("ada"), "pw1", "ada"),
        (single_tenant(), None, "hunter22", "default"),
    ] {
        let answer = match login(&config, &request(name, password), &None, None) {
            Ok(l) => l,
            Err(_) => panic!("no login"),
        };
        assert!(answer.exp > now());
        assert!(verify_token_for_config(&answer.token, &config));
        let header = format!("Bearer {}", answer.token);
        let user = require_auth(&config, &header, None).unwrap();
        assert_eq!(user.id, id);
        let mut forged = config;
        forged.auth.jwt_secret = text("other");
        assert!(!verify_token_for_config(&answer.token, &forged));
        assert_eq!(
            said(require_auth(&forged, &header, None)),
            (401, "Invalid or expired token".to_string())
        );
    }
}

#[test]
fn a_login_without_a_secret_fails() {
    let mut c = single_tenant();
    c.auth.jwt_secret = None;
    match login(&c, &request(None, "hunter22"), &None, None) {
        Err(LoginError::Refused(e)) => {
            assert_eq!((e.status, e.message.as_str()), (500, "JWT_SECRET not configured"))
        }
        _ => panic!("not refused"),
    }
    assert!(matches!(
        login_at(&c, &request(None, "wrong"), &None, None, now()),
        Err(LoginError::Refused(Refusal { status: 401, .. }))
    ));
    assert_eq!(
        said(require_auth(&c, "Bearer x", None)),
        (500, "JWT_SECRET not configured".to_string())
    );
    assert!(!verify_token_for_config("x", &c));
}

#[test]
fn requests_need_a_token() {
    let c = single_tenant();
    let missing = (401, "Missing Authorization header".to_string());
    assert_eq!(said(require_auth(&c, "", None)), missing);
    assert_eq!(said(require_auth(&c, "Basic abc", None)), missing);
    assert_eq!(said(require_auth(&c, "Bearer ", None)), missing);
    assert_eq!(bearer_token("bearer abc"), "abc");
    assert_eq!(require_auth(&test_config(true), "", None).unwrap().id, "dev");
    assert!(verify_token_for_config("", &test_config(false)));
}

fn claims(sub: &str) -> Claims {
    Claims {
        sub: sub.to_string(),
        usr: "shown".to_string(),
        iat: 1,
        exp: 2,
    }
}

#[test]
fn tokens_name_their_user() {
    let c = multi_user();
    assert_eq!(user_of_request(&c, Some(claims("u3")), None).unwrap().username, "cy ");
    assert_eq!(
        said(user_of_request(&c, Some(claims("gone")), None)),
        (401, "Invalid user".to_string())
    );
    assert_eq!(user_of_request(&single_tenant(), Some(claims("x")), None).unwrap().username, "shown");
    let user = user_of_request(&test_config(false), Some(claims("x")), text("me")).unwrap();
    assert_eq!(user.id, "me");
    assert!(verify_claims_for_config(&Some(claims("ada")), &c));
    assert!(!verify_claims_for_config(&Some(claims("gone")), &c));
    assert!(!verify_claims_for_config(&None, &c));
    assert!(verify_claims_for_config(&Some(claims("gone")), &single_tenant()));
}

#[test]
fn tokens_say_what_was_signed() {
    let t = now();
    let signed = Claims {
        sub: "u".to_string(),
        usr: "User".to_string(),
        iat: t,
        exp: t + 60,
    };
    let token = sign_claims(&signed, "s").unwrap();
    assert_eq!(token.split('.').count(), 3);
    let read = verify_jwt(&token, "s").unwrap();
    assert_eq!(
        (read.sub.as_str(), read.usr.as_str(), read.iat, read.exp),
        ("u", "User", t, t + 60)
    );
    assert!(verify_jwt(&token, "t").is_none());
    assert!(verify_jwt("no token", "s").is_none());
    let expired = Claims {
        exp: t - 1000,
        ..signed
    };
    assert!(verify_jwt(&sign_claims(&expired, "s").unwrap(), "s").is_none());
}

#[test]
fn tokens_count_until_the_leeway_is_over() {
    let t = now();
    let said = |iat: i64, exp: i64| {
        let claims = Claims {
            sub: "u".to_string(),
            usr: "User".to_string(),
            iat,
            exp,
        };
        verify_jwt(&sign_claims(&claims, "s").unwrap(), "s").map(|c| (c.sub, c.iat, c.exp))
    };
    let u = || "u".to_string();
    assert_eq!(said(t, t - 20), Some((u(), t, t - 20)));
    assert_eq!(said(t, t - 61), None);
    assert_eq!(said(t, -1), None);
    assert_eq!(said(t, i64::MIN), None);
    assert_eq!(said(t, i64::MAX), Some((u(), t, i64::MAX)));
    assert_eq!(said(i64::MIN, t + 5), Some((u(), i64::MIN, t + 5)));
    assert_eq!(said(i64::MAX, t + 5), Some((u(), i64::MAX, t + 5)));
}

#[test]
fn tokens_are_valid_for_a_day_at_least() {
    let t = now();
    let (token, exp) = issue_jwt_at("s", 0, "u", "User", t).unwrap();
    assert_eq!(exp, t + 86_400);
    assert_eq!(verify_jwt(&token, "s").unwrap().sub, "u");
    let (_, exp) = issue_jwt_at("s", 30, "u", "User", t).unwrap();
    assert_eq!(exp, t + 30 * 86_400);
    let token = mint_service_jwt_at("s", t).unwrap();
    let read = verify_jwt(&token, "s").unwrap();
    assert_eq!(read.sub, "orchestrator-mcp");
    assert_eq!(read.exp, t + 86_400);
    let read = verify_jwt(&mint_service_jwt("s").unwrap(), "s").unwrap();
    assert!(t <= read.iat && read.exp == read.iat + 86_400);
    let (token, exp) = issue_jwt("s", 2, "u", "User").unwrap();
    let read = verify_jwt(&token, "s").unwrap();
    assert!(t <= read.iat && read.exp == exp && exp == read.iat + 2 * 86_400);
    assert!(check_expiry(30, t) && !check_expiry(i64::MAX, t));
    assert_eq!(issue_jwt("s", i64::MAX, "u", "User"), Err(IssueError::NoDate));
    let mut forever = single_tenant();
    forever.auth.jwt_ttl_days = i64::MAX;
    assert!(matches!(
        login(&forever, &request(None, "hunter22"), &None, None),
        Err(LoginError::TokenNotIssued(IssueError::NoDate))
    ));
}

#[test]
fn claims_may_lack_a_name() {
    let read = |s: &str| claims_from_text(s);
    let c = read(r#"{"sub": "u", "iat": 1, "exp": 2}"#).unwrap();
    assert_eq!((c.sub.as_str(), c.usr.as_str()), ("u", ""));
    assert!(read(r#"{"iat": 1, "exp": 2}"#).is_none());
    assert!(read(r#"{"sub": "u", "exp": 2}"#).is_none());
    assert!(read(r#"{"sub": "u", "iat": 1}"#).is_none());
    assert!(read(r#"{"sub": "u", "usr": 1, "iat": 1, "exp": 2}"#).is_none());
    assert!(read(r#"["u", "n", 1, 2]"#).is_none());
}

#[test]
fn claims_are_written_once() {
    let said = |s: &str| claims_from_text(s).map(|c| (c.sub, c.usr, c.iat, c.exp));
    let claims = |sub: &str, usr: &str| Some((sub.to_string(), usr.to_string(), 1, -2));
    for repeated in [
        r#"{"sub":"u","usr":"a","iat":1,"exp":-2,"usr":"a"}"#,
        r#"{"sub":"u","usr":"a","iat":1,"exp":-2,"iat":1}"#,
        r#"{"sub":"u","usr":"a","iat":1,"exp":-2,"\u0075sr":"b"}"#,
        r#"{"sub":"u","usr":"a","iat":1,"exp":-2,"sub":"u"}"#,
        r#"{"sub":"u","usr":"a","iat":1,"exp":-2,"exp":-2}"#,
    ] {
        assert_eq!(said(repeated), None, "{}", repeated);
    }
    // Only what claims are made of counts.
    let other = r#" { "x" : {"sub":"no","iat":[1,{"exp":5}]}, "sub" : "u,}\":\\" , "x": "iat\":", "iat":1 ,
        "usr":"", "exp" : -2, "y": 1e999, "z": "\ud800" } "#;
    assert_eq!(said(other), claims(r#"u,}":\"#, ""));
    assert_eq!(said(r#"{"\u0073ub":"u","iat":1,"exp":-2,"usr":"n"}"#), claims("u", "n"));
    for wrong in [
        r#"{"sub":{"$serde_json::private::RawValue":"\"u\""},"iat":1,"exp":-2}"#,
        r#"{"sub":"u","iat":1.0,"exp":-2}"#,
        r#"{"sub":"u","iat":9223372036854775808,"exp":-2}"#,
        r#"{"sub":"u","usr":null,"iat":1,"exp":-2}"#,
        r#"{"sub":"\ud800","iat":1,"exp":-2}"#,
        r#"{"sub":"u","iat":1,"exp":-2,"\ud800":0}"#,
    ] {
        assert_eq!(said(wrong), None, "{}", wrong);
    }
}

#[test]
fn signed_payloads_with_repeated_claims_are_refused() {
    let t = now();
    let sign = |payload: String| {
        let raw = serde_json::value::RawValue::from_string(payload).unwrap();
        let key = jsonwebtoken::EncodingKey::from_secret(b"s");
        jsonwebtoken::encode(&jsonwebtoken::Header::default(), &raw, &key).unwrap()
    };
    let once = sign(format!(r#"{{"exp":{},"usr":"a","iat":1,"sub":"u","x":1,"x":2}}"#, t + 60));
    assert_eq!(verify_jwt(&once, "s").unwrap().usr, "a");
    for twice in [r#""usr":"a","usr":"a","iat":1"#, r#""iat":1,"iat":1"#] {
        let token = sign(format!(r#"{{"exp":{},"sub":"u",{}}}"#, t + 60, twice));
        assert!(verify_jwt(&token, "s").is_none(), "{}", twice);
    }
    // The members stand in one order, without spaces between them.
    let signed = Claims {
        sub: "u\"".to_string(),
        usr: "é".to_string(),
        iat: -1,
        exp: t + 60,
    };
    assert_eq!(
        sign_claims(&signed, "s").unwrap(),
        sign(format!(r#"{{"sub":"u\"","usr":"é","iat":-1,"exp":{}}}"#, t + 60))
    );
    let odd = Claims {
        sub: "a\"\\,}:{[\n\u{7}\u{1f600}".to_string(),
        usr: "\u{2028}\u{0}".to_string(),
        iat: i64::MIN,
        exp: t + 60,
    };
    let read = verify_jwt(&sign_claims(&odd, "s").unwrap(), "s").unwrap();
    assert_eq!((read.sub, read.usr, read.iat), (odd.sub, odd.usr, odd.iat));
}

#[test]
fn status_says_where_the_password_comes_from() {
    let c = single_tenant();
    let s = auth_status(&c, &None);
    assert_eq!((s.auth_mode.as_str(), s.password_source.as_str()), ("single_tenant", "environment"));
    let stored = Some(AuthSettings {
        password_hash: text("h"),
        password_changed_at: text("then"),
    });
    let s = auth_status(&c, &stored);
    assert_eq!(s.password_source, "dashboard");
    assert_eq!(s.password_changed_at, text("then"));
    let s = auth_status(&test_config(true), &None);
    assert_eq!((s.auth_mode.as_str(), s.password_source.as_str()), ("disabled", "none"));
    assert!(s.dev_mode);
    assert_eq!(auth_status(&multi_user(), &None).auth_mode, "multi_user");
}

fn change(current: Option<&str>, new: &str) -> ChangePasswordRequest {
    ChangePasswordRequest {
        current_password: current.map(String::from),
        new_password: new.to_string(),
    }
}

#[test]
fn a_password_is_changed_by_who_knows_it() {
    let c = single_tenant();
    let refused = |c: &Config, r: &ChangePasswordRequest| said(check_password_change(c, &None, r));
    assert_eq!(refused(&multi_user(), &change(None, "long enough")).0, 400);
    assert_eq!(
        refused(&c, &change(None, "long enough")),
        (400, "Current password is required".to_string())
    );
    assert_eq!(
        refused(&c, &change(Some("x"), "long enough")),
        (401, "Current password is incorrect".to_string())
    );
    assert_eq!(
        refused(&c, &change(Some("hunter22"), " short  ")),
        (400, "New password must be at least 8 characters".to_string())
    );
    assert!(check_password_change(&test_config(false), &None, &change(None, "long enough")).is_ok());
    let mut dev = single_tenant();
    dev.dev_mode = true;
    assert!(check_password_change(&dev, &None, &change(None, "long enough")).is_ok());

    let settings =
        match change_password_at(&c, &None, &change(Some("hunter22"), " long enough "), "t".to_string()) {
            Ok(s) => s,
            Err(e) => panic!("refused: {:?}", e),
        };
    assert_eq!(settings.password_changed_at, text("t"));
    let dated = match change_password(&c, &None, &change(Some("hunter22"), "long enough")) {
        Ok(s) => s,
        Err(e) => panic!("refused: {:?}", e),
    };
    assert!(chrono::DateTime::parse_from_rfc3339(&dated.password_changed_at.unwrap()).is_ok());
    let stored = Some(settings);
    assert!(check_login(&c, &request(None, "long enough"), &stored, None).is_ok());
    assert!(check_login(&c, &request(None, "hunter22"), &stored, None).is_err());
    assert_eq!(
        said(check_password_change(&c, &stored, &change(Some("hunter22"), "another one"))),
        (401, "Current password is incorrect".to_string())
    );
}

#[test]
fn hashes_are_those_of_pbkdf2() {
    // RFC 7914, section 11, gives the hash of "passwd" with the salt "salt" and one iteration.
    let known = "pbkdf2:1:73616c74:55ac046e56e3089fec1691c22544b605f94185216dde0465e68b9d57c20dacbc\
                 49ca9cccf179b645991664b39d77ef317c71b845b1e30bd509112041d3a19783";
    assert!(verify_password_hash("passwd", known));
    assert!(!verify_password_hash("passwe", known));
    let stored = hash_password_with("secret", &vec![0xab, 0x01]);
    assert!(stored.starts_with("pbkdf2:100000:ab01:"));
    assert_eq!(stored.len(), "pbkdf2:100000:ab01:".len() + 64);
    assert!(verify_password_hash("secret", &stored));
    assert!(verify_password_hash("secret", &stored.to_uppercase().replace("PBKDF2", "pbkdf2")));
    assert_ne!(hash_password("secret"), hash_password("secret"));
    let own = hash_password("secret");
    let lengths: Vec<usize> = own.split(':').map(|p| p.len()).collect();
    assert_eq!((own.len(), lengths), (111, vec![6, 6, 32, 64]));
    assert!(own.starts_with("pbkdf2:100000:") && verify_password_hash("secret", &own));
    for bad in [
        "",
        "pbkdf2:1:73616c74",
        "scrypt:1:73616c74:55",
        "pbkdf2:x:73616c74:55",
        "pbkdf2:1:7:55",
        "pbkdf2:1:73616c74:zz",
        "pbkdf2:1:73616c74:55:55",
    ] {
        assert!(!verify_password_hash("passwd", bad));
    }
}

#[test]
fn texts_are_compared_byte_by_byte() {
    assert!(constant_time_eq("", ""));
    assert!(constant_time_eq("é", "é"));
    assert!(!constant_time_eq("a", "b"));
    assert!(!constant_time_eq("a", "ab"));
}
