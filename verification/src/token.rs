//! Signed tokens that say who somebody is, and until when.
use vstd::prelude::*;

use crate::clock::{utc_now, MAX_TIMESTAMP, MIN_TIMESTAMP, SECS_PER_DAY};
use crate::json::{opt_json, Json, JsonView, NumberView};
use crate::json_members::{
    begins_object, cut_members, is_object_text, member_texts, members_of, MemberText,
    MemberTextView,
};
use crate::json_text::{parse_json, parsed_json, pretty_json, print_json};
use crate::text::{i64_text, opt_string, signed_decimal, str_eq};

verus! {

/// What a token says.
pub struct Claims {
    /// The identifier of the user.
    pub sub: String,
    /// The name of the user, for display.
    pub usr: String,
    /// When the token was issued, in seconds since 1970.
    pub iat: i64,
    /// Until when the token is valid, in seconds since 1970.
    pub exp: i64,
}

/// The model of what a token says.
pub struct ClaimsView {
    pub sub: Seq<char>,
    pub usr: Seq<char>,
    pub iat: int,
    pub exp: int,
}

impl View for Claims {
    type V = ClaimsView;

    open spec fn view(&self) -> ClaimsView {
        ClaimsView { sub: self.sub@, usr: self.usr@, iat: self.iat as int, exp: self.exp as int }
    }
}

/// The members of a payload.
pub open spec fn claim_members(c: ClaimsView) -> Seq<(Seq<char>, JsonView)> {
    seq![
        ("sub"@, JsonView::Text(c.sub)),
        ("usr"@, JsonView::Text(c.usr)),
        ("iat"@, JsonView::Number(NumberView::Int(c.iat))),
        ("exp"@, JsonView::Number(NumberView::Int(c.exp))),
    ]
}

/// The text of a payload, with texts as `serde_json` prints them.
pub open spec fn claims_text(c: ClaimsView) -> Seq<char> {
    "{\"sub\":"@ + pretty_json(JsonView::Text(c.sub)) + ",\"usr\":"@ + pretty_json(
        JsonView::Text(c.usr),
    ) + ",\"iat\":"@ + signed_decimal(c.iat) + ",\"exp\":"@ + signed_decimal(c.exp) + "}"@
}

/// The token that `jsonwebtoken::encode` makes of the text of a payload with the default
/// header, which asks for HMAC-SHA256; nothing where an error is reported.
pub uninterp spec fn signed_token(payload: Seq<char>, secret: Seq<char>) -> Option<Seq<char>>;

/// The text of the payload that `jsonwebtoken::decode` returns for a token with the default
/// validation while the clock stands at `now`, in seconds since 1970; nothing where it
/// reports an error, such as that the signature was not made with `secret`.
pub uninterp spec fn decoded_token(token: Seq<char>, secret: Seq<char>, now: u64) -> Option<
    Seq<char>,
>;

/// How long a token still counts after it has expired, in seconds, so that clocks may
/// differ a little.
pub const LEEWAY_SECS: u64 = 60;

/// Whether a token that expires at `exp` counts at the time `now`. In the first minute of
/// 1970 none does.
pub open spec fn counts_at(exp: int, now: u64) -> bool {
    LEEWAY_SECS <= now <= exp + LEEWAY_SECS
}

/// Whether `text` writes an object with these members, none of which is an object, in this
/// order: cut apart, the names and the values read as theirs.
pub open spec fn writes_members(text: Seq<char>, members: Seq<(Seq<char>, JsonView)>) -> bool {
    let written = members_of(text);
    &&& written.len() == members.len()
    &&& forall|i: int|
        0 <= i < members.len() ==> {
            &&& parsed_json((#[trigger] written[i]).name) == Some(JsonView::Text(members[i].0))
            &&& parsed_json(written[i].value) == Some(members[i].1)
            &&& !begins_object(written[i].value)
        }
}

/// Whether a token holds the claims for as long as it counts, and nothing after that.
pub open spec fn holds_claims(token: Seq<char>, secret: Seq<char>, c: ClaimsView) -> bool {
    &&& writes_members(claims_text(c), claim_members(c))
    &&& holds_text(token, secret, c.exp, claims_text(c))
}

/// Whether the payload of a token is `text` for as long as the token counts, and nothing
/// after that.
pub open spec fn holds_text(
    token: Seq<char>,
    secret: Seq<char>,
    exp: int,
    text: Seq<char>,
) -> bool {
    forall|now: u64| #[trigger]
        decoded_token(token, secret, now) == if counts_at(exp, now) {
            Some(text)
        } else {
            None
        }
}

/// Calls `jsonwebtoken::encode` with the default header, for a text that
/// `serde_json::value::RawValue` keeps as it is. The token is named: it depends on the text
/// and on the secret alone. A text that writes claims is an object with the members of the
/// claims, each once, and `jsonwebtoken::decode` with the same secret gives it back until
/// the clock stands more than the leeway past `exp`, and refuses the token from then on; it
/// takes the leeway from the clock as an unsigned number, so that it accepts nothing before
/// the leeway is over.
#[verifier::external_body]
fn encode_token(payload: &str, secret: &str) -> (r: Option<String>)
    ensures
        opt_string(r) == signed_token(payload@, secret@),
        r matches Some(t) ==> forall|c: ClaimsView|
            payload@ == #[trigger] claims_text(c) && i64::MIN <= c.iat <= i64::MAX && i64::MIN
                <= c.exp <= i64::MAX ==> holds_claims(t@, secret@, c),
{
    let raw = serde_json::value::RawValue::from_string(payload.to_string()).ok()?;
    let key = jsonwebtoken::EncodingKey::from_secret(secret.as_bytes());
    jsonwebtoken::encode(&jsonwebtoken::Header::default(), &raw, &key).ok()
}

/// Calls `jsonwebtoken::decode` for a `serde_json::value::RawValue`, which keeps the text of
/// the payload, with the default validation, which reads the clock and refuses a token that
/// has expired. What it returns is what it returns for the token and the secret at the time
/// that the clock shows; which time that is, is left unsaid. The payload of a token is the
/// same at each time at which it returns one. A payload that is not UTF-8 is an error.
#[verifier::external_body]
fn decode_token(token: &str, secret: &str) -> (r: Option<String>)
    ensures
        exists|now: u64| opt_string(r) == #[trigger] decoded_token(token@, secret@, now),
        r matches Some(t) ==> forall|at: u64|
            #[trigger] decoded_token(token@, secret@, at) matches Some(u) ==> u == t@,
{
    let key = jsonwebtoken::DecodingKey::from_secret(secret.as_bytes());
    let rules = jsonwebtoken::Validation::default();
    jsonwebtoken::decode::<Box<serde_json::value::RawValue>>(token, &key, &rules)
        .ok()
        .map(|d| d.claims.get().to_string())
}

/// The texts of the values that claims are made of, as far as a payload has them.
pub struct ClaimTexts {
    pub sub: Option<Seq<char>>,
    pub usr: Option<Seq<char>>,
    pub iat: Option<Seq<char>>,
    pub exp: Option<Seq<char>>,
}

/// The texts with one more member; nothing where the member was there before. A member of
/// another name adds nothing.
pub open spec fn with_member(g: ClaimTexts, name: Seq<char>, value: Seq<char>) -> Option<
    ClaimTexts,
> {
    if name == "sub"@ {
        if g.sub is Some {
            None
        } else {
            Some(ClaimTexts { sub: Some(value), ..g })
        }
    } else if name == "usr"@ {
        if g.usr is Some {
            None
        } else {
            Some(ClaimTexts { usr: Some(value), ..g })
        }
    } else if name == "iat"@ {
        if g.iat is Some {
            None
        } else {
            Some(ClaimTexts { iat: Some(value), ..g })
        }
    } else if name == "exp"@ {
        if g.exp is Some {
            None
        } else {
            Some(ClaimTexts { exp: Some(value), ..g })
        }
    } else {
        Some(g)
    }
}

/// What members say of claims; nothing where the name of one cannot be read, or one that
/// claims are made of is there twice.
pub open spec fn gathered(members: Seq<MemberTextView>) -> Option<ClaimTexts>
    decreases members.len(),
{
    if members.len() == 0 {
        Some(ClaimTexts { sub: None, usr: None, iat: None, exp: None })
    } else {
        match (gathered(members.drop_last()), parsed_json(members.last().name)) {
            (Some(g), Some(JsonView::Text(name))) => with_member(g, name, members.last().value),
            _ => None,
        }
    }
}

/// The value that a text writes, if it is no object.
pub open spec fn plain_value(text: Option<Seq<char>>) -> Option<JsonView> {
    match text {
        Some(t) => if begins_object(t) {
            None
        } else {
            parsed_json(t)
        },
        None => None,
    }
}

pub open spec fn text_value(text: Option<Seq<char>>) -> Option<Seq<char>> {
    match plain_value(text) {
        Some(j) => j.as_text(),
        None => None,
    }
}

pub open spec fn int_value(text: Option<Seq<char>>) -> Option<int> {
    match plain_value(text) {
        Some(j) => j.as_i64(),
        None => None,
    }
}

/// What a payload says, if it says all that it must, and nothing of it twice: a user, and
/// when the token was issued and expires. The name may be missing.
pub open spec fn claims_in(payload: Seq<char>) -> Option<ClaimsView> {
    match gathered(members_of(payload)) {
        Some(g) => {
            let usr = if g.usr is None {
                Some(Seq::<char>::empty())
            } else {
                text_value(g.usr)
            };
            match (text_value(g.sub), usr, int_value(g.iat), int_value(g.exp)) {
                (Some(sub), Some(usr), Some(iat), Some(exp)) => Some(
                    ClaimsView { sub, usr, iat, exp },
                ),
                _ => None,
            }
        },
        None => None,
    }
}

/// The model of claims that may be there.
pub open spec fn opt_claims(o: Option<Claims>) -> Option<ClaimsView> {
    match o {
        Some(c) => Some(c@),
        None => None,
    }
}

/// The values that claims are made of, as far as they were found.
struct Found {
    sub: Option<String>,
    usr: Option<String>,
    iat: Option<String>,
    exp: Option<String>,
}

impl View for Found {
    type V = ClaimTexts;

    closed spec fn view(&self) -> ClaimTexts {
        ClaimTexts {
            sub: opt_string(self.sub),
            usr: opt_string(self.usr),
            iat: opt_string(self.iat),
            exp: opt_string(self.exp),
        }
    }
}

impl Found {
    /// Takes note of a member. Says whether that was not there before.
    fn take_note(&mut self, name: &str, value: &str) -> (r: bool)
        ensures
            r == (with_member(old(self)@, name@, value@) is Some),
            r ==> with_member(old(self)@, name@, value@) == Some(final(self)@),
    {
        if str_eq(name, "sub") {
            let first = self.sub.is_none();
            self.sub = Some(value.to_string());
            first
        } else if str_eq(name, "usr") {
            let first = self.usr.is_none();
            self.usr = Some(value.to_string());
            first
        } else if str_eq(name, "iat") {
            let first = self.iat.is_none();
            self.iat = Some(value.to_string());
            first
        } else if str_eq(name, "exp") {
            let first = self.exp.is_none();
            self.exp = Some(value.to_string());
            first
        } else {
            true
        }
    }
}

fn gather(members: &Vec<MemberText>) -> (r: Option<Found>)
    ensures
        match r {
            Some(f) => gathered(member_texts(members@)) == Some(f@),
            None => gathered(member_texts(members@)) is None,
        },
{
    let ghost all = member_texts(members@);
    let mut found = Found { sub: None, usr: None, iat: None, exp: None };
    let mut i: usize = 0;
    assert(all.take(0).len() == 0);
    while i < members.len()
        invariant
            i <= members@.len(),
            all == member_texts(members@),
            gathered(all.take(i as int)) == Some(found@),
        decreases members@.len() - i,
    {
        let m = &members[i];
        let ghost upto = all.take(i + 1);
        assert(upto.drop_last() =~= all.take(i as int));
        assert(upto.last() == m@);
        let name = parse_json(m.name.as_str());
        let taken = match &name {
            Some(Json::Text(name)) => found.take_note(name.as_str(), m.value.as_str()),
            _ => false,
        };
        if !taken {
            proof {
                assert(gathered(upto) is None);
                lemma_gathered_prefix(all, i + 1);
            }
            return None;
        }
        i += 1;
    }
    assert(all.take(i as int) =~= all);
    Some(found)
}

/// What is wrong with some of the members is wrong with all of them.
proof fn lemma_gathered_prefix(members: Seq<MemberTextView>, n: int)
    requires
        0 <= n <= members.len(),
        gathered(members.take(n)) is None,
    ensures
        gathered(members) is None,
    decreases members.len(),
{
    if n == members.len() {
        assert(members.take(n) =~= members);
    } else {
        assert(members.drop_last().take(n) =~= members.take(n));
        lemma_gathered_prefix(members.drop_last(), n);
    }
}

fn read_value(text: &Option<String>) -> (r: Option<Json>)
    ensures
        opt_json(r) == plain_value(opt_string(*text)),
{
    match text {
        Some(t) => if is_object_text(t.as_str()) {
            None
        } else {
            parse_json(t.as_str())
        },
        None => None,
    }
}

fn read_text(text: &Option<String>) -> (r: Option<String>)
    ensures
        opt_string(r) == text_value(opt_string(*text)),
{
    match read_value(text) {
        Some(j) => match j.as_str() {
            Some(s) => Some(s.to_string()),
            None => None,
        },
        None => None,
    }
}

fn read_int(text: &Option<String>) -> (r: Option<i64>)
    ensures
        match r {
            Some(n) => int_value(opt_string(*text)) == Some(n as int),
            None => int_value(opt_string(*text)) is None,
        },
{
    match read_value(text) {
        Some(j) => j.as_i64(),
        None => None,
    }
}

/// What a payload says.
pub fn claims_from_text(payload: &str) -> (r: Option<Claims>)
    ensures
        opt_claims(r) == claims_in(payload@),
{
    let found = match gather(&cut_members(payload)) {
        Some(f) => f,
        None => {
            return None;
        },
    };
    let usr = if found.usr.is_none() {
        let none = String::new();
        assert(none@ =~= Seq::<char>::empty());
        Some(none)
    } else {
        read_text(&found.usr)
    };
    match (read_text(&found.sub), usr, read_int(&found.iat), read_int(&found.exp)) {
        (Some(sub), Some(usr), Some(iat), Some(exp)) => Some(Claims { sub, usr, iat, exp }),
        _ => None,
    }
}

/// A text as `serde_json` prints it.
fn printed_text(s: &str) -> (r: String)
    ensures
        r@ == pretty_json(JsonView::Text(s@)),
{
    print_json(&Json::Text(s.to_string()))
}

/// The text of a payload.
fn write_claims(c: &Claims) -> (r: String)
    ensures
        r@ == claims_text(c@),
{
    let mut out = "{\"sub\":".to_string();
    out.push_str(printed_text(c.sub.as_str()).as_str());
    out.push_str(",\"usr\":");
    out.push_str(printed_text(c.usr.as_str()).as_str());
    out.push_str(",\"iat\":");
    out.push_str(i64_text(c.iat).as_str());
    out.push_str(",\"exp\":");
    out.push_str(i64_text(c.exp).as_str());
    out.push_str("}");
    out
}

/// Signs a token.
pub fn sign_claims(claims: &Claims, secret: &str) -> (r: Option<String>)
    ensures
        opt_string(r) == signed_token(claims_text(claims@), secret@),
        r matches Some(t) ==> holds_claims(t@, secret@, claims@),
{
    encode_token(write_claims(claims).as_str(), secret)
}

/// What a token says at the time `now`, if its signature is right and it has not expired.
pub open spec fn said_at(token: Seq<char>, secret: Seq<char>, now: u64) -> Option<ClaimsView> {
    match decoded_token(token, secret, now) {
        Some(p) => claims_in(p),
        None => None,
    }
}

/// What a token says now, if its signature is right and it has not expired. A token says
/// the same whenever it says anything.
pub fn verify_jwt(token: &str, secret: &str) -> (r: Option<Claims>)
    ensures
        exists|now: u64| opt_claims(r) == #[trigger] said_at(token@, secret@, now),
        r matches Some(c) ==> forall|at: u64|
            #[trigger] said_at(token@, secret@, at) matches Some(d) ==> d == c@,
{
    let decoded = decode_token(token, secret);
    proof {
        let now: u64 = choose|now: u64|
            opt_string(decoded) == #[trigger] decoded_token(token@, secret@, now);
        assert(said_at(token@, secret@, now) == match opt_string(decoded) {
            Some(p) => claims_in(p),
            None => None,
        });
    }
    match decoded {
        Some(payload) => claims_from_text(payload.as_str()),
        None => None,
    }
}

/// What was written is what is read.
pub proof fn law_claims_read_back(payload: Seq<char>, c: ClaimsView)
    requires
        i64::MIN <= c.iat <= i64::MAX,
        i64::MIN <= c.exp <= i64::MAX,
        writes_members(payload, claim_members(c)),
    ensures
        claims_in(payload) == Some(c),
{
    reveal_strlit("exp");
    reveal_strlit("iat");
    reveal_strlit("sub");
    reveal_strlit("usr");
    assert("exp"@[0] == 'e' && "iat"@[0] == 'i' && "sub"@[0] == 's' && "usr"@[0] == 'u');
    let m = members_of(payload);
    let m3 = m.drop_last();
    let m2 = m3.drop_last();
    let m1 = m2.drop_last();
    let m0 = m1.drop_last();
    assert(m1.last() == m[0] && m2.last() == m[1] && m3.last() == m[2] && m.last() == m[3]);
    assert(m0.len() == 0);
    assert(gathered(m0) == Some(ClaimTexts { sub: None, usr: None, iat: None, exp: None }));
    assert(gathered(m1) is Some);
    assert(gathered(m2) is Some);
    assert(gathered(m3) is Some);
    assert(gathered(m) == Some(
        ClaimTexts {
            sub: Some(m[0].value),
            usr: Some(m[1].value),
            iat: Some(m[2].value),
            exp: Some(m[3].value),
        },
    ));
}

/// A payload that writes a member of the claims twice says nothing, whatever else it says.
pub proof fn law_repeated_claims_are_refused(payload: Seq<char>, name: Seq<char>, i: int, j: int)
    requires
        name == "sub"@ || name == "usr"@ || name == "iat"@ || name == "exp"@,
        0 <= i < j < members_of(payload).len(),
        parsed_json(members_of(payload)[i].name) == Some(JsonView::Text(name)),
        parsed_json(members_of(payload)[j].name) == Some(JsonView::Text(name)),
    ensures
        claims_in(payload) is None,
{
    lemma_repeated_name(members_of(payload), name, i, j);
}

/// The value that was found under a name.
pub open spec fn found_under(g: ClaimTexts, name: Seq<char>) -> Option<Seq<char>> {
    if name == "sub"@ {
        g.sub
    } else if name == "usr"@ {
        g.usr
    } else if name == "iat"@ {
        g.iat
    } else {
        g.exp
    }
}

proof fn lemma_name_is_found(members: Seq<MemberTextView>, name: Seq<char>, i: int)
    requires
        name == "sub"@ || name == "usr"@ || name == "iat"@ || name == "exp"@,
        0 <= i < members.len(),
        parsed_json(members[i].name) == Some(JsonView::Text(name)),
    ensures
        gathered(members) matches Some(g) ==> found_under(g, name) is Some,
    decreases members.len(),
{
    lemma_claim_names_differ();
    if i < members.len() - 1 {
        assert(members.drop_last()[i] == members[i]);
        lemma_name_is_found(members.drop_last(), name, i);
    }
}

proof fn lemma_repeated_name(members: Seq<MemberTextView>, name: Seq<char>, i: int, j: int)
    requires
        name == "sub"@ || name == "usr"@ || name == "iat"@ || name == "exp"@,
        0 <= i < j < members.len(),
        parsed_json(members[i].name) == Some(JsonView::Text(name)),
        parsed_json(members[j].name) == Some(JsonView::Text(name)),
    ensures
        gathered(members) is None,
{
    lemma_claim_names_differ();
    let upto = members.take(j + 1);
    assert(upto.drop_last() =~= members.take(j));
    assert(members.take(j)[i] == members[i]);
    lemma_name_is_found(members.take(j), name, i);
    assert(upto.last() == members[j]);
    assert(gathered(upto) is None);
    lemma_gathered_prefix(members, j + 1);
}

proof fn lemma_claim_names_differ()
    ensures
        "sub"@ != "usr"@ && "sub"@ != "iat"@ && "sub"@ != "exp"@,
        "usr"@ != "iat"@ && "usr"@ != "exp"@ && "iat"@ != "exp"@,
{
    reveal_strlit("exp");
    reveal_strlit("iat");
    reveal_strlit("sub");
    reveal_strlit("usr");
    assert("exp"@[0] == 'e' && "iat"@[0] == 'i' && "sub"@[0] == 's' && "usr"@[0] == 'u');
}

/// A token says what was signed until it has expired and the leeway is over, and nothing
/// from then on.
pub proof fn law_token_says_claims(token: Seq<char>, secret: Seq<char>, c: ClaimsView, at: u64)
    requires
        i64::MIN <= c.iat <= i64::MAX,
        i64::MIN <= c.exp <= i64::MAX,
        holds_claims(token, secret, c),
    ensures
        said_at(token, secret, at) == if counts_at(c.exp, at) {
            Some(c)
        } else {
            None
        },
{
    law_claims_read_back(claims_text(c), c);
    assert(decoded_token(token, secret, at) == if counts_at(c.exp, at) {
        Some(claims_text(c))
    } else {
        None
    });
}

/// The claims of a user from `now` on for `days`, but for one day at least.
pub open spec fn user_claims(
    id: Seq<char>,
    username: Seq<char>,
    ttl_days: int,
    now: int,
) -> ClaimsView {
    ClaimsView {
        sub: id,
        usr: username,
        iat: now,
        exp: now + SECS_PER_DAY * if ttl_days >= 1 {
            ttl_days
        } else {
            1
        },
    }
}

/// Whether `r` is a token that was issued to a user at the time `now`, and until when it is
/// valid.
pub open spec fn issued(
    secret: Seq<char>,
    ttl_days: int,
    id: Seq<char>,
    username: Seq<char>,
    now: int,
    r: Option<(String, i64)>,
) -> bool {
    let c = user_claims(id, username, ttl_days, now);
    match r {
        Some((token, exp)) => {
            &&& signed_token(claims_text(c), secret) == Some(token@)
            &&& holds_claims(token@, secret, c)
            &&& exp == c.exp
        },
        None => signed_token(claims_text(c), secret) is None,
    }
}

/// Whether a token that is issued at the time `now` expires at a date.
pub open spec fn expires_at_date(ttl_days: int, now: int) -> bool {
    user_claims(Seq::empty(), Seq::empty(), ttl_days, now).exp <= MAX_TIMESTAMP
}

/// Issues a token to a user at the time `now`, and says until when it is valid.
pub fn issue_jwt_at(secret: &str, ttl_days: i64, id: &str, username: &str, now: i64) -> (r: Option<
    (String, i64),
>)
    requires
        MIN_TIMESTAMP <= now,
        expires_at_date(ttl_days as int, now as int),
    ensures
        issued(secret@, ttl_days as int, id@, username@, now as int, r),
{
    let days: i64 = if ttl_days >= 1 {
        ttl_days
    } else {
        1
    };
    let exp: i64 = now + 86_400 * days;
    let claims = Claims { sub: id.to_string(), usr: username.to_string(), iat: now, exp };
    match sign_claims(&claims, secret) {
        Some(token) => Some((token, exp)),
        None => None,
    }
}

/// Whether a token that is issued at the time `now` expires at a date.
pub fn check_expiry(ttl_days: i64, now: i64) -> (r: bool)
    requires
        MIN_TIMESTAMP <= now <= MAX_TIMESTAMP,
    ensures
        r == expires_at_date(ttl_days as int, now as int),
{
    let days: i64 = if ttl_days >= 1 {
        ttl_days
    } else {
        1
    };
    days <= (MAX_TIMESTAMP - now) / 86_400
}

/// Why no token was issued.
#[derive(Debug, Clone, Copy, PartialEq, Eq, Structural)]
pub enum IssueError {
    /// The token could not be signed.
    NotSigned,
    /// The token would expire after the last date.
    NoDate,
}

/// Issues a token to a user now, and says until when it is valid.
pub fn issue_jwt(secret: &str, ttl_days: i64, id: &str, username: &str) -> (r: Result<
    (String, i64),
    IssueError,
>)
    ensures
        exists|now: i64|
            #![trigger expires_at_date(ttl_days as int, now as int)]
            0 <= now <= MAX_TIMESTAMP && match r {
                Ok(t) => expires_at_date(ttl_days as int, now as int) && issued(
                    secret@,
                    ttl_days as int,
                    id@,
                    username@,
                    now as int,
                    Some(t),
                ),
                Err(IssueError::NotSigned) => expires_at_date(ttl_days as int, now as int)
                    && issued(secret@, ttl_days as int, id@, username@, now as int, None),
                Err(IssueError::NoDate) => !expires_at_date(ttl_days as int, now as int),
            },
{
    let (moment, _text) = utc_now();
    let now: i64 = moment.seconds;
    if !check_expiry(ttl_days, now) {
        return Err(IssueError::NoDate);
    }
    match issue_jwt_at(secret, ttl_days, id, username, now) {
        Some(t) => Ok(t),
        None => Err(IssueError::NotSigned),
    }
}

/// The claims of the orchestrator, which are valid for a day.
pub open spec fn service_claims(now: int) -> ClaimsView {
    ClaimsView {
        sub: "orchestrator-mcp"@,
        usr: "orchestrator-mcp"@,
        iat: now,
        exp: now + SECS_PER_DAY,
    }
}

/// Whether `r` is a token that was issued to the orchestrator at the time `now`.
pub open spec fn minted(secret: Seq<char>, now: int, r: Option<String>) -> bool {
    let c = service_claims(now);
    &&& opt_string(r) == signed_token(claims_text(c), secret)
    &&& r matches Some(t) ==> holds_claims(t@, secret, c)
}

/// Issues a token to the orchestrator at the time `now`.
pub fn mint_service_jwt_at(secret: &str, now: i64) -> (r: Option<String>)
    requires
        MIN_TIMESTAMP <= now <= MAX_TIMESTAMP - SECS_PER_DAY,
    ensures
        minted(secret@, now as int, r),
{
    let claims = Claims {
        sub: "orchestrator-mcp".to_string(),
        usr: "orchestrator-mcp".to_string(),
        iat: now,
        exp: now + SECS_PER_DAY,
    };
    sign_claims(&claims, secret)
}

/// Whether `r` is a token that was issued to the orchestrator at the time `now`, or nothing
/// on the last day of all, when the token would expire after the last date.
pub open spec fn minted_unless_last_day(secret: Seq<char>, now: i64, r: Option<String>) -> bool {
    if now <= MAX_TIMESTAMP - SECS_PER_DAY {
        minted(secret, now as int, r)
    } else {
        r is None
    }
}

/// Issues a token to the orchestrator now.
pub fn mint_service_jwt(secret: &str) -> (r: Option<String>)
    ensures
        exists|now: i64|
            0 <= now <= MAX_TIMESTAMP && #[trigger] minted_unless_last_day(secret@, now, r),
{
    let (moment, _text) = utc_now();
    let now: i64 = moment.seconds;
    let r = if now <= MAX_TIMESTAMP - SECS_PER_DAY {
        mint_service_jwt_at(secret, now)
    } else {
        None
    };
    assert(minted_unless_last_day(secret@, now, r));
    r
}

// ---------------------------------------------------------------------------
// Laws of claims
// ---------------------------------------------------------------------------

/// What tokens say: whose they are, and that they last as many days as were asked for, one at
/// least; the orchestrator's lasts one.
pub proof fn law_claims_of_tokens(id: Seq<char>, name: Seq<char>, days: int, now: int)
    ensures
        ({
            let c = user_claims(id, name, days, now);
            &&& c.sub == id && c.usr == name && c.iat == now
            &&& c.exp == now + 86_400 * (if days >= 1 {
                days
            } else {
                1
            })
        }),
        ({
            let c = service_claims(now);
            c.sub == "orchestrator-mcp"@ && c.usr == "orchestrator-mcp"@ && c.iat == now && c.exp
                == now + 86_400
        }),
        expires_at_date(days, now) == (now + 86_400 * (if days >= 1 {
            days
        } else {
            1
        }) <= 8_210_266_876_799),
{
}

/// The text that is signed: the four claims in their order.
pub proof fn law_signed_text(c: ClaimsView)
    ensures
        claims_text(c) == "{\"sub\":"@ + pretty_json(JsonView::Text(c.sub)) + ",\"usr\":"@
            + pretty_json(JsonView::Text(c.usr)) + ",\"iat\":"@ + signed_decimal(c.iat)
            + ",\"exp\":"@ + signed_decimal(c.exp) + "}"@,
        counts_at(c.exp, 60) == (c.exp >= 0),
        LEEWAY_SECS == 60,
{
}

/// An issued token is that of its user, and is valid until it expires.
pub proof fn law_issued_token(
    secret: Seq<char>,
    days: int,
    id: Seq<char>,
    name: Seq<char>,
    now: i64,
    r: Option<(String, i64)>,
    at: u64,
)
    requires
        issued(secret, days, id, name, now as int, r),
        r is Some,
    ensures
        (r->0).1 == now + 86_400 * (if days >= 1 {
            days
        } else {
            1
        }),
        60 <= at <= (r->0).1 + 60 ==> (said_at((r->0).0@, secret, at) matches Some(c) && c.sub == id
            && c.usr == name && c.iat == now && c.exp == (r->0).1),
        at > (r->0).1 + 60 ==> said_at((r->0).0@, secret, at) is None,
{
    let c = user_claims(id, name, days, now as int);
    law_token_says_claims((r->0).0@, secret, c, at);
}

/// What the orchestrator is given, it can use for a day.
pub proof fn law_minted_token(secret: Seq<char>, now: i64, r: Option<String>, at: u64)
    requires
        minted(secret, now as int, r),
        r is Some,
        now <= MAX_TIMESTAMP,
    ensures
        60 <= at <= now + 86_460 ==> (said_at(r->0@, secret, at) matches Some(c) && c.sub
            == "orchestrator-mcp"@ && c.exp == now + 86_400),
        at > now + 86_460 ==> said_at(r->0@, secret, at) is None,
{
    law_token_says_claims(r->0@, secret, service_claims(now as int), at);
}

/// Which member of a payload says what, whatever the order of the members; one that says
/// something else is passed over.
pub proof fn law_members_of_a_payload(
    members: Seq<MemberTextView>,
    m: MemberTextView,
    name: Seq<char>,
    g: ClaimTexts,
)
    requires
        gathered(members) == Some(g),
        parsed_json(m.name) == Some(JsonView::Text(name)),
    ensures
        gathered(Seq::<MemberTextView>::empty()) == Some(
            ClaimTexts { sub: None, usr: None, iat: None, exp: None },
        ),
        name == "sub"@ && g.sub is None ==> gathered(members.push(m)) == Some(
            ClaimTexts { sub: Some(m.value), ..g },
        ),
        name == "usr"@ && g.usr is None ==> gathered(members.push(m)) == Some(
            ClaimTexts { usr: Some(m.value), ..g },
        ),
        name == "iat"@ && g.iat is None ==> gathered(members.push(m)) == Some(
            ClaimTexts { iat: Some(m.value), ..g },
        ),
        name == "exp"@ && g.exp is None ==> gathered(members.push(m)) == Some(
            ClaimTexts { exp: Some(m.value), ..g },
        ),
        name != "sub"@ && name != "usr"@ && name != "iat"@ && name != "exp"@ ==> gathered(
            members.push(m),
        ) == Some(g),
{
    lemma_claim_names_differ();
    assert(members.push(m).drop_last() =~= members);
}

/// What the members say together: all of it is owed but for the name, and each must be of its
/// type.
pub proof fn law_claims_need_their_members(
    payload: Seq<char>,
    g: ClaimTexts,
    sub: Seq<char>,
    usr: Seq<char>,
    iat: int,
    exp: int,
)
    requires
        gathered(members_of(payload)) == Some(g),
    ensures
        ({
            let is_text = |o: Option<Seq<char>>, s: Seq<char>|
                o is Some && !begins_object(o->0) && parsed_json(o->0) == Some(JsonView::Text(s));
            let is_number = |o: Option<Seq<char>>, n: int|
                o is Some && !begins_object(o->0) && parsed_json(o->0) == Some(
                    JsonView::Number(NumberView::Int(n)),
                ) && i64::MIN <= n <= i64::MAX;
            &&& is_text(g.sub, sub) && is_text(g.usr, usr) && is_number(g.iat, iat) && is_number(g.exp, exp)
                ==> claims_in(payload) == Some(ClaimsView { sub, usr, iat, exp })
            &&& is_text(g.sub, sub) && g.usr is None && is_number(g.iat, iat) && is_number(g.exp, exp)
                ==> claims_in(payload) == Some(
                ClaimsView { sub, usr: Seq::empty(), iat, exp },
            )
            &&& g.sub is None || g.iat is None || g.exp is None ==> claims_in(payload) is None
        }),
{
}

/// A token for the orchestrator is issued on every day that is not the last.
pub proof fn law_last_day_of_minting(secret: Seq<char>, now: i64, r: Option<String>)
    requires
        minted_unless_last_day(secret, now, r),
    ensures
        now + 24 * 60 * 60 <= 8_210_266_876_799 ==> minted(secret, now as int, r),
        now + 24 * 60 * 60 > 8_210_266_876_799 ==> r is None,
{
}

} // verus!
