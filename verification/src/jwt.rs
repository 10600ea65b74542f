//! Signed tokens: who is signed in, and for how long.

use jsonwebtoken::{DecodingKey, EncodingKey, Header, Validation};
use serde_json::value::RawValue;
use serde_json::Value;
use vstd::prelude::*;
use vstd::string::StringExecFns;

use crate::clock;
use crate::ids;
use crate::text;
use crate::user::UserId;

verus! {

#[derive(Debug, Clone, Copy, PartialEq, Eq, Structural)]
pub enum TokenKind {
    Access,
    Refresh,
}

#[derive(Debug)]
pub enum JwtError {
    /// The token cannot be made or read, is not signed by us, or has expired.
    Encode(String),
    Expired,
    WrongKind { expected: TokenKind, got: TokenKind },
}

/// Name of a kind.
pub open spec fn kind_name(k: TokenKind) -> Seq<char> {
    match k {
        TokenKind::Access => "Access"@,
        TokenKind::Refresh => "Refresh"@,
    }
}

fn name_of_kind(k: TokenKind) -> (r: &'static str)
    ensures
        r@ == kind_name(k),
{
    match k {
        TokenKind::Access => "Access",
        TokenKind::Refresh => "Refresh",
    }
}

impl JwtError {
    /// What went wrong, in words.
    pub fn message(&self) -> (r: String)
        ensures
            r@ == match self {
                JwtError::Encode(m) => "jwt error: "@ + m@,
                JwtError::Expired => "token expired"@,
                JwtError::WrongKind { expected, got } => "invalid token kind: expected "@
                    + kind_name(*expected) + ", got "@ + kind_name(*got),
            },
    {
        match self {
            JwtError::Encode(m) => {
                let mut s = "jwt error: ".to_string();
                s.append(m.as_str());
                s
            },
            JwtError::Expired => "token expired".to_string(),
            JwtError::WrongKind { expected, got } => {
                let mut s = "invalid token kind: expected ".to_string();
                s.append(name_of_kind(*expected));
                s.append(", got ");
                s.append(name_of_kind(*got));
                s
            },
        }
    }
}

/// Who is signed in.
#[derive(Debug, Clone)]
pub struct AccessClaims {
    pub sub: u128,
    pub kind: TokenKind,
    pub admin: bool,
    /// Seconds since the Unix epoch.
    pub exp: i64,
    pub iat: i64,
    pub iss: String,
}

/// Who may sign in again.
#[derive(Debug, Clone)]
pub struct RefreshClaims {
    pub sub: u128,
    pub kind: TokenKind,
    pub jti: u128,
    /// Seconds since the Unix epoch.
    pub exp: i64,
    pub iat: i64,
    pub iss: String,
}

// ---------------------------------------------------------------------------
// Claims
// ---------------------------------------------------------------------------

/// The value of a claim.
#[derive(Debug)]
pub enum ClaimValue {
    Text(String),
    Number(i64),
    Flag(bool),
    /// Anything else.
    Other,
}

/// The model of [`ClaimValue`].
pub enum ClaimModel {
    Text(Seq<char>),
    Number(i64),
    Flag(bool),
    Other,
}

impl View for ClaimValue {
    type V = ClaimModel;

    open spec fn view(&self) -> ClaimModel {
        match self {
            ClaimValue::Text(s) => ClaimModel::Text(s@),
            ClaimValue::Number(n) => ClaimModel::Number(*n),
            ClaimValue::Flag(b) => ClaimModel::Flag(*b),
            ClaimValue::Other => ClaimModel::Other,
        }
    }
}

/// Claims by name.
pub open spec fn claims_view(c: Seq<(String, ClaimValue)>) -> Seq<(Seq<char>, ClaimModel)> {
    Seq::new(c.len(), |i: int| (c[i].0@, c[i].1@))
}

/// The first claim of a name, from `from` on.
pub open spec fn claim(c: Seq<(Seq<char>, ClaimModel)>, name: Seq<char>, from: int) -> Option<
    ClaimModel,
>
    decreases c.len() - from,
{
    if from < 0 || from >= c.len() {
        None
    } else if c[from].0 == name {
        Some(c[from].1)
    } else {
        claim(c, name, from + 1)
    }
}

/// A name is given twice.
pub open spec fn repeated(c: Seq<(Seq<char>, ClaimModel)>, name: Seq<char>) -> bool {
    exists|i: int, j: int|
        0 <= i < j < c.len() && (#[trigger] c[i]).0 == name && (#[trigger] c[j]).0 == name
}

/// Claims with distinct names and values of the three kinds.
pub open spec fn plain_claims(c: Seq<(Seq<char>, ClaimModel)>) -> bool {
    &&& forall|i: int, j: int| 0 <= i < j < c.len() ==> (#[trigger] c[i]).0 != (#[trigger] c[j]).0
    &&& forall|i: int| 0 <= i < c.len() ==> !((#[trigger] c[i]).1 is Other)
}

/// Claims of an issuer that expire and are meant for no audience in
/// particular.
pub open spec fn issued_by(c: Seq<(Seq<char>, ClaimModel)>, issuer: Seq<char>) -> bool {
    &&& plain_claims(c)
    &&& claim(c, "iss"@, 0) == Some(ClaimModel::Text(issuer))
    &&& claim(c, "exp"@, 0) matches Some(ClaimModel::Number(n)) && n >= 0
    &&& claim(c, "aud"@, 0) is None
}

/// The token that claims make when signed with a secret.
pub uninterp spec fn signed_token(
    claims: Seq<(Seq<char>, ClaimModel)>,
    secret: Seq<char>,
) -> Seq<char>;

/// The text of the claims of a token that is signed with a secret and, where an
/// issuer is given, comes from that one, whether or not it has expired; `None`
/// for any other text.
pub uninterp spec fn token_payload(
    token: Seq<char>,
    secret: Seq<char>,
    issuer: Option<Seq<char>>,
) -> Option<Seq<char>>;

/// The members of the JSON object that a text is, in their order, a name that
/// is given twice with both of its values; `None` for any other text.
pub uninterp spec fn json_members(text: Seq<char>) -> Option<Seq<(Seq<char>, ClaimModel)>>;

/// The claims of a token that is signed with a secret and, where an issuer is
/// given, comes from that one, whether or not it has expired.
pub open spec fn token_claims(
    token: Seq<char>,
    secret: Seq<char>,
    issuer: Option<Seq<char>>,
) -> Option<Seq<(Seq<char>, ClaimModel)>> {
    match token_payload(token, secret, issuer) {
        Some(t) => json_members(t),
        None => None,
    }
}

/// What is said of a token that has expired.
pub open spec fn expired_text() -> Seq<char> {
    "ExpiredSignature"@
}

/// `jsonwebtoken::encode` of the claims as a JSON object, with the default
/// header, which signs with HS256. With a key made by `from_secret` it gives a
/// token for every such object, and the token depends on the claims and the
/// secret alone.
#[verifier::external_body]
fn encode(claims: &Vec<(String, ClaimValue)>, secret: &str) -> (r: Result<String, String>)
    requires
        plain_claims(claims_view(claims@)),
    ensures
        r is Ok,
        r->Ok_0@ == signed_token(claims_view(claims@), secret@),
{
    let mut m = serde_json::Map::new();
    for (k, v) in claims {
        let x = match v {
            ClaimValue::Text(s) => Value::from(s.as_str()),
            ClaimValue::Number(n) => Value::from(*n),
            ClaimValue::Flag(b) => Value::from(*b),
            ClaimValue::Other => Value::Null,
        };
        m.insert(k.clone(), x);
    }
    let key = EncodingKey::from_secret(secret.as_bytes());
    jsonwebtoken::encode(&Header::default(), &m, &key).map_err(|e| e.to_string())
}

/// `jsonwebtoken::decode` of a token into the text of its claims.
///
/// Without an issuer nothing but the signature is checked: a token is refused
/// that is not signed with the secret or does not hold JSON that the crate can
/// read registered claims from, each given once. What the others give depends
/// on the token and the secret alone.
///
/// With an issuer, the default validation comes after that, with the issuer as
/// the one accepted. But for the time, what it gives depends on the token, the
/// secret and the issuer: it also refuses a token that names another issuer or
/// an audience, or has no date of expiry, and the text that it gives is that of
/// the check of the signature. Whether a token has expired is left to the
/// clock: the claim `exp`, with a minute's grace, against the time of the call.
///
/// A token that `encode` made with the same secret, for the issuer where there
/// is one, gives back the text of its claims until it has expired. A refusal
/// comes in words, and those for a token that has expired stand for nothing
/// else.
#[verifier::external_body]
fn decode(token: &str, secret: &str, issuer: Option<&str>) -> (r: Result<String, String>)
    ensures
        match r {
            Ok(t) => {
                &&& token_payload(token@, secret@, text::opt_str_view(issuer)) == Some(t@)
                &&& token_payload(token@, secret@, None) == Some(t@)
                &&& issuer matches Some(i) ==> (json_members(t@) matches Some(c) ==> (claim(
                    c,
                    "iss"@,
                    0,
                ) matches Some(ClaimModel::Text(s)) ==> s == i@))
            },
            Err(m) => if m@ == expired_text() {
                &&& issuer is Some
                &&& token_payload(token@, secret@, None) is Some
                &&& token_payload(token@, secret@, text::opt_str_view(issuer)) is Some
                    ==> token_payload(token@, secret@, text::opt_str_view(issuer))
                    == token_payload(token@, secret@, None)
            } else {
                token_payload(token@, secret@, text::opt_str_view(issuer)) is None
            },
        },
        forall|c: Seq<(Seq<char>, ClaimModel)>, i: Seq<char>|
            token@ == #[trigger] signed_token(c, secret@) && #[trigger] issued_by(c, i) && (
            issuer is None || issuer->0@ == i) ==> match r {
                Ok(t) => json_members(t@) == Some(c),
                Err(m) => m@ == expired_text(),
            },
{
    let mut v = Validation::default();
    v.iss = issuer.map(|i| [i.to_string()].into());
    v.validate_exp = issuer.is_some();
    v.validate_aud = issuer.is_some();
    v.required_spec_claims.retain(|_| issuer.is_some());
    let key = DecodingKey::from_secret(secret.as_bytes());
    match jsonwebtoken::decode::<Box<RawValue>>(token, &key, &v) {
        Ok(d) => Ok(d.claims.get().to_string()),
        Err(e) => Err(e.to_string()),
    }
}

/// `figment::util::vec_tuple_map::deserialize` of a text that is read as JSON:
/// the members of an object, one pair for each in the order of the text, and
/// nothing for what is no object.
#[verifier::external_body]
fn read_members(text: &str) -> (r: Option<Vec<(String, ClaimValue)>>)
    ensures
        match r {
            Some(c) => json_members(text@) == Some(claims_view(c@)),
            None => json_members(text@) is None,
        },
{
    let mut d = serde_json::Deserializer::from_str(text);
    let m: Vec<(String, Value)> = figment::util::vec_tuple_map::deserialize(&mut d).ok()?;
    Some(m.into_iter().map(|(k, x)| (k, match x {
        Value::String(s) => ClaimValue::Text(s),
        Value::Bool(b) => ClaimValue::Flag(b),
        _ => x.as_i64().map_or(ClaimValue::Other, ClaimValue::Number),
    })).collect())
}

/// The claims of a token, once its signature is checked; what else is wrong
/// with it does not matter yet.
fn signed_claims(token: &str, secret: &str) -> (r: Result<Vec<(String, ClaimValue)>, String>)
    ensures
        match r {
            Ok(c) => token_claims(token@, secret@, None) == Some(claims_view(c@)),
            Err(m) => token_claims(token@, secret@, None) is None && m@ != expired_text(),
        },
        forall|c: Seq<(Seq<char>, ClaimModel)>, i: Seq<char>|
            token@ == #[trigger] signed_token(c, secret@) && #[trigger] issued_by(c, i) ==> (
            r matches Ok(v) && claims_view(v@) == c),
{
    match decode(token, secret, None) {
        Ok(t) => match read_members(t.as_str()) {
            Some(c) => Ok(c),
            None => {
                proof {
                    lemma_messages();
                }
                Err("JSON error: malformed claims".to_string())
            },
        },
        Err(m) => Err(m),
    }
}

// ---------------------------------------------------------------------------
// Tokens of this service
// ---------------------------------------------------------------------------

/// The word for a kind in a token.
pub open spec fn kind_word(k: TokenKind) -> Seq<char> {
    match k {
        TokenKind::Access => "access"@,
        TokenKind::Refresh => "refresh"@,
    }
}

/// The claims of an access token.
pub open spec fn access_model(sub: u128, admin: bool, exp: i64, iat: i64, iss: Seq<char>) -> Seq<
    (Seq<char>, ClaimModel),
> {
    seq![
        ("sub"@, ClaimModel::Text(ids::uuid_text(sub))),
        ("kind"@, ClaimModel::Text("access"@)),
        ("admin"@, ClaimModel::Flag(admin)),
        ("exp"@, ClaimModel::Number(exp)),
        ("iat"@, ClaimModel::Number(iat)),
        ("iss"@, ClaimModel::Text(iss)),
    ]
}

/// The claims of a refresh token.
pub open spec fn refresh_model(sub: u128, jti: u128, exp: i64, iat: i64, iss: Seq<char>) -> Seq<
    (Seq<char>, ClaimModel),
> {
    seq![
        ("sub"@, ClaimModel::Text(ids::uuid_text(sub))),
        ("kind"@, ClaimModel::Text("refresh"@)),
        ("jti"@, ClaimModel::Text(ids::uuid_text(jti))),
        ("exp"@, ClaimModel::Number(exp)),
        ("iat"@, ClaimModel::Number(iat)),
        ("iss"@, ClaimModel::Text(iss)),
    ]
}

proof fn lemma_names()
    ensures
        "sub"@ != "kind"@,
        "sub"@ != "admin"@,
        "sub"@ != "exp"@,
        "sub"@ != "iat"@,
        "sub"@ != "iss"@,
        "sub"@ != "jti"@,
        "sub"@ != "aud"@,
        "kind"@ != "admin"@,
        "kind"@ != "exp"@,
        "kind"@ != "iat"@,
        "kind"@ != "iss"@,
        "kind"@ != "jti"@,
        "kind"@ != "aud"@,
        "admin"@ != "exp"@,
        "admin"@ != "iat"@,
        "admin"@ != "iss"@,
        "admin"@ != "jti"@,
        "admin"@ != "aud"@,
        "exp"@ != "iat"@,
        "exp"@ != "iss"@,
        "exp"@ != "jti"@,
        "exp"@ != "aud"@,
        "iat"@ != "iss"@,
        "iat"@ != "jti"@,
        "iat"@ != "aud"@,
        "iss"@ != "jti"@,
        "iss"@ != "aud"@,
        "jti"@ != "aud"@,
        "access"@ != "refresh"@,
{
    reveal_strlit("sub");
    reveal_strlit("kind");
    reveal_strlit("admin");
    reveal_strlit("exp");
    reveal_strlit("iat");
    reveal_strlit("iss");
    reveal_strlit("jti");
    reveal_strlit("aud");
    reveal_strlit("access");
    reveal_strlit("refresh");
    assert("sub"@.len() == 3 && "kind"@.len() == 4 && "admin"@.len() == 5);
    assert("access"@.len() == 6 && "refresh"@.len() == 7);
    assert("sub"@[0] == 's' && "exp"@[0] == 'e' && "jti"@[0] == 'j' && "aud"@[0] == 'a');
    assert("iat"@[0] == 'i' && "iss"@[0] == 'i' && "iat"@[1] == 'a' && "iss"@[1] == 's');
    assert("exp"@.len() == 3 && "iat"@.len() == 3 && "iss"@.len() == 3 && "jti"@.len() == 3
        && "aud"@.len() == 3);
}

proof fn lemma_messages()
    ensures
        "JSON error: malformed claims"@ != "ExpiredSignature"@,
{
    reveal_strlit("JSON error: malformed claims");
    reveal_strlit("ExpiredSignature");
    assert("JSON error: malformed claims"@[0] == 'J' && "ExpiredSignature"@[0] == 'E');
}

/// What an access token holds.
proof fn lemma_access_model(sub: u128, admin: bool, exp: i64, iat: i64, iss: Seq<char>)
    ensures
        ({
            let c = access_model(sub, admin, exp, iat, iss);
            &&& plain_claims(c)
            &&& access_once(c)
            &&& claim(c, "sub"@, 0) == Some(ClaimModel::Text(ids::uuid_text(sub)))
            &&& claim(c, "kind"@, 0) == Some(ClaimModel::Text("access"@))
            &&& claim(c, "admin"@, 0) == Some(ClaimModel::Flag(admin))
            &&& claim(c, "jti"@, 0) is None
            &&& claim(c, "exp"@, 0) == Some(ClaimModel::Number(exp))
            &&& claim(c, "iat"@, 0) == Some(ClaimModel::Number(iat))
            &&& claim(c, "iss"@, 0) == Some(ClaimModel::Text(iss))
            &&& claim(c, "aud"@, 0) is None
        }),
{
    lemma_names();
    reveal_with_fuel(claim, 7);
}

/// What a refresh token holds.
proof fn lemma_refresh_model(sub: u128, jti: u128, exp: i64, iat: i64, iss: Seq<char>)
    ensures
        ({
            let c = refresh_model(sub, jti, exp, iat, iss);
            &&& plain_claims(c)
            &&& refresh_once(c)
            &&& claim(c, "sub"@, 0) == Some(ClaimModel::Text(ids::uuid_text(sub)))
            &&& claim(c, "kind"@, 0) == Some(ClaimModel::Text("refresh"@))
            &&& claim(c, "admin"@, 0) is None
            &&& claim(c, "jti"@, 0) == Some(ClaimModel::Text(ids::uuid_text(jti)))
            &&& claim(c, "exp"@, 0) == Some(ClaimModel::Number(exp))
            &&& claim(c, "iat"@, 0) == Some(ClaimModel::Number(iat))
            &&& claim(c, "iss"@, 0) == Some(ClaimModel::Text(iss))
            &&& claim(c, "aud"@, 0) is None
        }),
{
    lemma_names();
    reveal_with_fuel(claim, 7);
}

fn find_claim<'a>(c: &'a Vec<(String, ClaimValue)>, name: &str) -> (r: Option<&'a ClaimValue>)
    ensures
        match r {
            Some(v) => claim(claims_view(c@), name@, 0) == Some(v@),
            None => claim(claims_view(c@), name@, 0) is None,
        },
{
    let mut i: usize = 0;
    while i < c.len()
        invariant
            i <= c.len(),
            claim(claims_view(c@), name@, 0) == claim(claims_view(c@), name@, i as int),
        decreases c.len() - i,
    {
        if text::same_text(c[i].0.as_str(), name) {
            return Some(&c[i].1);
        }
        i = i + 1;
    }
    None
}

fn is_repeated(c: &Vec<(String, ClaimValue)>, name: &str) -> (r: bool)
    ensures
        r == repeated(claims_view(c@), name@),
{
    let ghost m = claims_view(c@);
    let mut seen: Option<usize> = None;
    let mut i: usize = 0;
    while i < c.len()
        invariant
            i <= c.len(),
            m == claims_view(c@),
            match seen {
                Some(k) => k < i && m[k as int].0 == name@ && forall|j: int|
                    0 <= j < i && j != k ==> (#[trigger] m[j]).0 != name@,
                None => forall|j: int| 0 <= j < i ==> (#[trigger] m[j]).0 != name@,
            },
        decreases c.len() - i,
    {
        if text::same_text(c[i].0.as_str(), name) {
            assert(m[i as int].0 == name@);
            match seen {
                Some(_) => {
                    return true;
                },
                None => {
                    seen = Some(i);
                },
            }
        }
        i = i + 1;
    }
    false
}

pub open spec fn text_of(v: Option<ClaimModel>) -> Option<Seq<char>> {
    match v {
        Some(ClaimModel::Text(s)) => Some(s),
        _ => None,
    }
}

pub open spec fn number_of(v: Option<ClaimModel>) -> Option<i64> {
    match v {
        Some(ClaimModel::Number(n)) => Some(n),
        _ => None,
    }
}

pub open spec fn flag_of(v: Option<ClaimModel>) -> Option<bool> {
    match v {
        Some(ClaimModel::Flag(b)) => Some(b),
        _ => None,
    }
}

/// The identifier under a name.
pub open spec fn id_of(v: Option<ClaimModel>) -> Option<u128> {
    match text_of(v) {
        Some(s) => ids::uuid_in(s),
        None => None,
    }
}

/// The kind that a token names.
pub open spec fn kind_of(v: Option<ClaimModel>) -> Option<TokenKind> {
    match text_of(v) {
        Some(s) => if s == "access"@ {
            Some(TokenKind::Access)
        } else if s == "refresh"@ {
            Some(TokenKind::Refresh)
        } else {
            None
        },
        None => None,
    }
}

fn text_claim(c: &Vec<(String, ClaimValue)>, name: &str) -> (r: Option<String>)
    ensures
        text::opt_view(r) == text_of(claim(claims_view(c@), name@, 0)),
{
    match find_claim(c, name) {
        Some(v) => match v {
            ClaimValue::Text(s) => Some(s.clone()),
            _ => None,
        },
        None => None,
    }
}

fn number_claim(c: &Vec<(String, ClaimValue)>, name: &str) -> (r: Option<i64>)
    ensures
        r == number_of(claim(claims_view(c@), name@, 0)),
{
    match find_claim(c, name) {
        Some(v) => match v {
            ClaimValue::Number(n) => Some(*n),
            _ => None,
        },
        None => None,
    }
}

fn flag_claim(c: &Vec<(String, ClaimValue)>, name: &str) -> (r: Option<bool>)
    ensures
        r == flag_of(claim(claims_view(c@), name@, 0)),
{
    match find_claim(c, name) {
        Some(v) => match v {
            ClaimValue::Flag(b) => Some(*b),
            _ => None,
        },
        None => None,
    }
}

fn id_claim(c: &Vec<(String, ClaimValue)>, name: &str) -> (r: Option<u128>)
    ensures
        r == id_of(claim(claims_view(c@), name@, 0)),
        forall|id: u128|
            claim(claims_view(c@), name@, 0) == Some(ClaimModel::Text(#[trigger] ids::uuid_text(id)))
                ==> r == Some(id),
{
    match text_claim(c, name) {
        Some(s) => ids::read_uuid(s.as_str()),
        None => None,
    }
}

fn kind_claim(c: &Vec<(String, ClaimValue)>) -> (r: Option<TokenKind>)
    ensures
        r == kind_of(claim(claims_view(c@), "kind"@, 0)),
{
    match text_claim(c, "kind") {
        Some(s) => {
            if text::same_text(s.as_str(), "access") {
                Some(TokenKind::Access)
            } else if text::same_text(s.as_str(), "refresh") {
                Some(TokenKind::Refresh)
            } else {
                None
            }
        },
        None => None,
    }
}

/// Nothing that an access token holds is given twice.
pub open spec fn access_once(c: Seq<(Seq<char>, ClaimModel)>) -> bool {
    &&& !repeated(c, "sub"@)
    &&& !repeated(c, "kind"@)
    &&& !repeated(c, "admin"@)
    &&& !repeated(c, "exp"@)
    &&& !repeated(c, "iat"@)
    &&& !repeated(c, "iss"@)
}

/// Claims that hold all that an access token holds, each once.
pub open spec fn has_access_claims(c: Seq<(Seq<char>, ClaimModel)>) -> bool {
    &&& access_once(c)
    &&& id_of(claim(c, "sub"@, 0)) is Some
    &&& kind_of(claim(c, "kind"@, 0)) is Some
    &&& flag_of(claim(c, "admin"@, 0)) is Some
    &&& number_of(claim(c, "exp"@, 0)) is Some
    &&& number_of(claim(c, "iat"@, 0)) is Some
    &&& text_of(claim(c, "iss"@, 0)) is Some
}

/// `a` is what the claims `c` hold.
pub open spec fn is_access(a: AccessClaims, c: Seq<(Seq<char>, ClaimModel)>) -> bool {
    &&& access_once(c)
    &&& id_of(claim(c, "sub"@, 0)) == Some(a.sub)
    &&& kind_of(claim(c, "kind"@, 0)) == Some(a.kind)
    &&& flag_of(claim(c, "admin"@, 0)) == Some(a.admin)
    &&& number_of(claim(c, "exp"@, 0)) == Some(a.exp)
    &&& number_of(claim(c, "iat"@, 0)) == Some(a.iat)
    &&& text_of(claim(c, "iss"@, 0)) == Some(a.iss@)
}

/// Nothing that a refresh token holds is given twice.
pub open spec fn refresh_once(c: Seq<(Seq<char>, ClaimModel)>) -> bool {
    &&& !repeated(c, "sub"@)
    &&& !repeated(c, "kind"@)
    &&& !repeated(c, "jti"@)
    &&& !repeated(c, "exp"@)
    &&& !repeated(c, "iat"@)
    &&& !repeated(c, "iss"@)
}

/// Claims that hold all that a refresh token holds, each once.
pub open spec fn has_refresh_claims(c: Seq<(Seq<char>, ClaimModel)>) -> bool {
    &&& refresh_once(c)
    &&& id_of(claim(c, "sub"@, 0)) is Some
    &&& kind_of(claim(c, "kind"@, 0)) is Some
    &&& id_of(claim(c, "jti"@, 0)) is Some
    &&& number_of(claim(c, "exp"@, 0)) is Some
    &&& number_of(claim(c, "iat"@, 0)) is Some
    &&& text_of(claim(c, "iss"@, 0)) is Some
}

/// `a` is what the claims `c` hold.
pub open spec fn is_refresh(a: RefreshClaims, c: Seq<(Seq<char>, ClaimModel)>) -> bool {
    &&& refresh_once(c)
    &&& id_of(claim(c, "sub"@, 0)) == Some(a.sub)
    &&& kind_of(claim(c, "kind"@, 0)) == Some(a.kind)
    &&& id_of(claim(c, "jti"@, 0)) == Some(a.jti)
    &&& number_of(claim(c, "exp"@, 0)) == Some(a.exp)
    &&& number_of(claim(c, "iat"@, 0)) == Some(a.iat)
    &&& text_of(claim(c, "iss"@, 0)) == Some(a.iss@)
}

/// What claims say of who is signed in, if they hold all of it.
pub fn read_access(c: &Vec<(String, ClaimValue)>) -> (r: Option<AccessClaims>)
    ensures
        match r {
            Some(a) => is_access(a, claims_view(c@)),
            None => !has_access_claims(claims_view(c@)),
        },
        forall|id: u128|
            claim(claims_view(c@), "sub"@, 0) == Some(
                ClaimModel::Text(#[trigger] ids::uuid_text(id)),
            ) && r is Some ==> r->0.sub == id,
        forall|id: u128|
            claim(claims_view(c@), "sub"@, 0) == Some(
                ClaimModel::Text(#[trigger] ids::uuid_text(id)),
            ) && r is None ==> !access_once(claims_view(c@)) || kind_of(
                claim(claims_view(c@), "kind"@, 0),
            ) is None || flag_of(
                claim(claims_view(c@), "admin"@, 0),
            ) is None || number_of(claim(claims_view(c@), "exp"@, 0)) is None || number_of(
                claim(claims_view(c@), "iat"@, 0),
            ) is None || text_of(claim(claims_view(c@), "iss"@, 0)) is None,
{
    if is_repeated(c, "sub") || is_repeated(c, "kind") || is_repeated(c, "admin") || is_repeated(
        c,
        "exp",
    ) || is_repeated(c, "iat") || is_repeated(c, "iss") {
        return None;
    }
    let sub = id_claim(c, "sub");
    let kind = kind_claim(c);
    let admin = flag_claim(c, "admin");
    let exp = number_claim(c, "exp");
    let iat = number_claim(c, "iat");
    let iss = text_claim(c, "iss");
    match (sub, kind, admin, exp, iat, iss) {
        (Some(sub), Some(kind), Some(admin), Some(exp), Some(iat), Some(iss)) => Some(
            AccessClaims { sub, kind, admin, exp, iat, iss },
        ),
        _ => None,
    }
}

/// What claims say of who may sign in again, if they hold all of it.
pub fn read_refresh(c: &Vec<(String, ClaimValue)>) -> (r: Option<RefreshClaims>)
    ensures
        match r {
            Some(a) => is_refresh(a, claims_view(c@)),
            None => !has_refresh_claims(claims_view(c@)),
        },
        forall|sub: u128, jti: u128|
            claim(claims_view(c@), "sub"@, 0) == Some(
                ClaimModel::Text(#[trigger] ids::uuid_text(sub)),
            ) && claim(claims_view(c@), "jti"@, 0) == Some(
                ClaimModel::Text(#[trigger] ids::uuid_text(jti)),
            ) ==> match r {
                Some(a) => a.sub == sub && a.jti == jti,
                None => !refresh_once(claims_view(c@)) || kind_of(
                    claim(claims_view(c@), "kind"@, 0),
                ) is None || number_of(claim(claims_view(c@), "exp"@, 0),
                ) is None || number_of(claim(claims_view(c@), "iat"@, 0)) is None || text_of(
                    claim(claims_view(c@), "iss"@, 0),
                ) is None,
            },
{
    if is_repeated(c, "sub") || is_repeated(c, "kind") || is_repeated(c, "jti") || is_repeated(
        c,
        "exp",
    ) || is_repeated(c, "iat") || is_repeated(c, "iss") {
        return None;
    }
    let sub = id_claim(c, "sub");
    let kind = kind_claim(c);
    let jti = id_claim(c, "jti");
    let exp = number_claim(c, "exp");
    let iat = number_claim(c, "iat");
    let iss = text_claim(c, "iss");
    match (sub, kind, jti, exp, iat, iss) {
        (Some(sub), Some(kind), Some(jti), Some(exp), Some(iat), Some(iss)) => Some(
            RefreshClaims { sub, kind, jti, exp, iat, iss },
        ),
        _ => None,
    }
}

/// What verifying an access token comes to, by what the check of its signature
/// gave and by why its validation refuses it, if it does. A token that is not
/// signed by us is an error, then one that lacks a claim or repeats one, then one that has expired or is not
/// valid otherwise, and then one of the other kind.
pub fn access_outcome(
    signed: Result<Vec<(String, ClaimValue)>, String>,
    refusal: Option<String>,
) -> (r: Result<AccessClaims, JwtError>)
    ensures
        match signed {
            Err(m) => r == Err::<AccessClaims, JwtError>(JwtError::Encode(m)),
            Ok(c) => if !has_access_claims(claims_view(c@)) {
                r matches Err(JwtError::Encode(m)) && m@ == "JSON error: malformed claims"@
            } else if refusal is Some {
                r == Err::<AccessClaims, JwtError>(JwtError::Encode(refusal->0))
            } else if kind_of(claim(claims_view(c@), "kind"@, 0)) == Some(TokenKind::Access) {
                r matches Ok(a) && is_access(a, claims_view(c@))
            } else {
                r == Err::<AccessClaims, JwtError>(
                    JwtError::WrongKind { expected: TokenKind::Access, got: TokenKind::Refresh },
                )
            },
        },
        forall|id: u128|
            (signed matches Ok(c) && access_once(claims_view(c@)) && claim(claims_view(c@), "sub"@, 0) == Some(
                ClaimModel::Text(#[trigger] ids::uuid_text(id)),
            ) && kind_of(claim(claims_view(c@), "kind"@, 0)) == Some(TokenKind::Access) && flag_of(
                claim(claims_view(c@), "admin"@, 0),
            ) is Some && number_of(claim(claims_view(c@), "exp"@, 0)) is Some && number_of(
                claim(claims_view(c@), "iat"@, 0),
            ) is Some && text_of(claim(claims_view(c@), "iss"@, 0)) is Some) ==> match refusal {
                None => r matches Ok(a) && a.sub == id,
                Some(m) => r == Err::<AccessClaims, JwtError>(JwtError::Encode(m)),
            },
{
    match signed {
        Err(m) => Err(JwtError::Encode(m)),
        Ok(c) => match read_access(&c) {
            None => Err(JwtError::Encode("JSON error: malformed claims".to_string())),
            Some(a) => match refusal {
                Some(m) => Err(JwtError::Encode(m)),
                None => {
                    if a.kind == TokenKind::Access {
                        Ok(a)
                    } else {
                        Err(JwtError::WrongKind { expected: TokenKind::Access, got: a.kind })
                    }
                },
            },
        },
    }
}

/// What verifying a refresh token comes to, by what the check of its signature
/// gave and by why its validation refuses it, in the order of [`access_outcome`].
pub fn refresh_outcome(
    signed: Result<Vec<(String, ClaimValue)>, String>,
    refusal: Option<String>,
) -> (r: Result<RefreshClaims, JwtError>)
    ensures
        match signed {
            Err(m) => r == Err::<RefreshClaims, JwtError>(JwtError::Encode(m)),
            Ok(c) => if !has_refresh_claims(claims_view(c@)) {
                r matches Err(JwtError::Encode(m)) && m@ == "JSON error: malformed claims"@
            } else if refusal is Some {
                r == Err::<RefreshClaims, JwtError>(JwtError::Encode(refusal->0))
            } else if kind_of(claim(claims_view(c@), "kind"@, 0)) == Some(TokenKind::Refresh) {
                r matches Ok(a) && is_refresh(a, claims_view(c@))
            } else {
                r == Err::<RefreshClaims, JwtError>(
                    JwtError::WrongKind { expected: TokenKind::Refresh, got: TokenKind::Access },
                )
            },
        },
        forall|sub: u128, jti: u128|
            (signed matches Ok(c) && refresh_once(claims_view(c@)) && claim(claims_view(c@), "sub"@, 0) == Some(
                ClaimModel::Text(#[trigger] ids::uuid_text(sub)),
            ) && claim(claims_view(c@), "jti"@, 0) == Some(
                ClaimModel::Text(#[trigger] ids::uuid_text(jti)),
            ) && kind_of(claim(claims_view(c@), "kind"@, 0)) == Some(TokenKind::Refresh)
                && number_of(claim(claims_view(c@), "exp"@, 0)) is Some && number_of(
                claim(claims_view(c@), "iat"@, 0),
            ) is Some && text_of(claim(claims_view(c@), "iss"@, 0)) is Some) ==> match refusal {
                None => r matches Ok(a) && a.sub == sub && a.jti == jti,
                Some(m) => r == Err::<RefreshClaims, JwtError>(JwtError::Encode(m)),
            },
{
    match signed {
        Err(m) => Err(JwtError::Encode(m)),
        Ok(c) => match read_refresh(&c) {
            None => Err(JwtError::Encode("JSON error: malformed claims".to_string())),
            Some(a) => match refusal {
                Some(m) => Err(JwtError::Encode(m)),
                None => {
                    if a.kind == TokenKind::Refresh {
                        Ok(a)
                    } else {
                        Err(JwtError::WrongKind { expected: TokenKind::Refresh, got: a.kind })
                    }
                },
            },
        },
    }
}

/// What tokens are signed with. It has no text of its own, so that no log
/// shows it.
#[derive(Clone)]
pub struct Secret {
    text: String,
}

impl View for Secret {
    type V = Seq<char>;

    closed spec fn view(&self) -> Seq<char> {
        self.text@
    }
}

/// Makes and checks tokens.
#[derive(Clone)]
pub struct Issuer {
    pub issuer: String,
    /// Lifetimes, in seconds.
    pub access_ttl: i64,
    pub refresh_ttl: i64,
    pub secret: Secret,
}

/// A lifetime that fits into the calendar.
pub open spec fn is_ttl(secs: i64) -> bool {
    -clock::LONGEST_SECS <= secs <= clock::LONGEST_SECS
}

/// A lifetime that fits into the calendar.
pub fn ttl_fits(secs: i64) -> (r: bool)
    ensures
        r == is_ttl(secs),
{
    -clock::LONGEST_SECS <= secs && secs <= clock::LONGEST_SECS
}

impl Issuer {
    pub fn new(secret: &str, issuer: String, access_ttl_secs: i64, refresh_ttl_secs: i64) -> (r:
        Self)
        ensures
            r.secret@ == secret@,
            r.issuer == issuer,
            r.access_ttl == access_ttl_secs,
            r.refresh_ttl == refresh_ttl_secs,
    {
        Issuer {
            issuer,
            access_ttl: access_ttl_secs,
            refresh_ttl: refresh_ttl_secs,
            secret: Secret { text: secret.to_string() },
        }
    }

    /// The access token that is issued at an instant.
    pub open spec fn access_token(self, user: UserId, admin: bool, now: i64) -> Seq<char> {
        signed_token(
            access_model(
                user.0,
                admin,
                (clock::whole_seconds(now) + self.access_ttl) as i64,
                clock::whole_seconds(now) as i64,
                self.issuer@,
            ),
            self.secret@,
        )
    }

    /// The refresh token that is issued at an instant for a while.
    pub open spec fn refresh_token(self, user: UserId, jti: u128, ttl: i64, now: i64) -> Seq<char> {
        signed_token(
            refresh_model(
                user.0,
                jti,
                (clock::whole_seconds(now) + ttl) as i64,
                clock::whole_seconds(now) as i64,
                self.issuer@,
            ),
            self.secret@,
        )
    }

    /// An access token for an instant.
    pub fn access_token_at(&self, user_id: UserId, is_admin: bool, now: i64) -> (r: Result<
        String,
        JwtError,
    >)
        requires
            is_ttl(self.access_ttl),
            clock::EARLIEST_MS <= now <= clock::LATEST_MS,
        ensures
            r matches Ok(t) && t@ == self.access_token(user_id, is_admin, now),
    {
        let iat: i64 = clock::seconds_of(now);
        let exp: i64 = iat + self.access_ttl;
        let mut claims: Vec<(String, ClaimValue)> = Vec::new();
        claims.push(("sub".to_string(), ClaimValue::Text(ids::write_uuid(user_id.0))));
        claims.push(("kind".to_string(), ClaimValue::Text("access".to_string())));
        claims.push(("admin".to_string(), ClaimValue::Flag(is_admin)));
        claims.push(("exp".to_string(), ClaimValue::Number(exp)));
        claims.push(("iat".to_string(), ClaimValue::Number(iat)));
        claims.push(("iss".to_string(), ClaimValue::Text(self.issuer.clone())));
        proof {
            let m = access_model(user_id.0, is_admin, exp, iat, self.issuer@);
            lemma_access_model(user_id.0, is_admin, exp, iat, self.issuer@);
            assert(claims_view(claims@) =~= m);
        }
        match encode(&claims, self.secret.text.as_str()) {
            Ok(t) => Ok(t),
            Err(e) => Err(JwtError::Encode(e)),
        }
    }

    /// A refresh token for an instant.
    pub fn refresh_token_at(&self, user_id: UserId, jti: u128, ttl: i64, now: i64) -> (r: Result<
        String,
        JwtError,
    >)
        requires
            is_ttl(ttl),
            clock::EARLIEST_MS <= now <= clock::LATEST_MS,
        ensures
            r matches Ok(t) && t@ == self.refresh_token(user_id, jti, ttl, now),
    {
        let iat: i64 = clock::seconds_of(now);
        let exp: i64 = iat + ttl;
        let mut claims: Vec<(String, ClaimValue)> = Vec::new();
        claims.push(("sub".to_string(), ClaimValue::Text(ids::write_uuid(user_id.0))));
        claims.push(("kind".to_string(), ClaimValue::Text("refresh".to_string())));
        claims.push(("jti".to_string(), ClaimValue::Text(ids::write_uuid(jti))));
        claims.push(("exp".to_string(), ClaimValue::Number(exp)));
        claims.push(("iat".to_string(), ClaimValue::Number(iat)));
        claims.push(("iss".to_string(), ClaimValue::Text(self.issuer.clone())));
        proof {
            let m = refresh_model(user_id.0, jti, exp, iat, self.issuer@);
            lemma_refresh_model(user_id.0, jti, exp, iat, self.issuer@);
            assert(claims_view(claims@) =~= m);
        }
        match encode(&claims, self.secret.text.as_str()) {
            Ok(t) => Ok(t),
            Err(e) => Err(JwtError::Encode(e)),
        }
    }

    /// An access token for now.
    pub fn issue_access(&self, user_id: UserId, is_admin: bool) -> (r: Result<String, JwtError>)
        requires
            is_ttl(self.access_ttl),
        ensures
            r is Ok,
            exists|now: i64|
                clock::EARLIEST_MS <= now <= clock::LATEST_MS && r->Ok_0@
                    == #[trigger] self.access_token(user_id, is_admin, now),
    {
        let now: i64 = clock::now_ms();
        self.access_token_at(user_id, is_admin, now)
    }

    /// A refresh token for now, with its identifier and the instant at which
    /// it expires.
    pub fn issue_refresh(&self, user_id: UserId) -> (r: Result<(String, u128, i64), JwtError>)
        requires
            is_ttl(self.refresh_ttl),
        ensures
            r is Ok,
            ids::is_random_uuid(r->Ok_0.1),
            exists|now: i64|
                clock::EARLIEST_MS <= now <= clock::LATEST_MS && r->Ok_0.0@
                    == #[trigger] self.refresh_token(user_id, r->Ok_0.1, self.refresh_ttl, now)
                    && r->Ok_0.2 == now + self.refresh_ttl * 1000,
    {
        self.issue_refresh_for(user_id, self.refresh_ttl)
    }

    /// A refresh token with a lifetime of its own.
    pub fn issue_refresh_for(&self, user_id: UserId, ttl: i64) -> (r: Result<
        (String, u128, i64),
        JwtError,
    >)
        requires
            is_ttl(ttl),
        ensures
            r is Ok,
            ids::is_random_uuid(r->Ok_0.1),
            exists|now: i64|
                clock::EARLIEST_MS <= now <= clock::LATEST_MS && r->Ok_0.0@
                    == #[trigger] self.refresh_token(user_id, r->Ok_0.1, ttl, now) && r->Ok_0.2
                    == now + ttl * 1000,
    {
        let now: i64 = clock::now_ms();
        let jti: u128 = ids::new_uuid();
        let exp: i64 = now + ttl * 1000;
        match self.refresh_token_at(user_id, jti, ttl, now) {
            Ok(t) => Ok((t, jti, exp)),
            Err(e) => Err(e),
        }
    }

    /// Who an access token says is signed in: what [`access_outcome`] makes of
    /// the decoded token. A token that [`issue_access`] made gives back what it
    /// was made for until it has expired; a refresh token is no access token.
    ///
    /// [`issue_access`]: Issuer::issue_access
    pub fn verify_access(&self, token: &str) -> (r: Result<AccessClaims, JwtError>)
        ensures
            match r {
                Ok(a) => token_claims(token@, self.secret@, Some(self.issuer@)) matches Some(c)
                    && is_access(a, c) && a.kind is Access && a.iss@ == self.issuer@,
                Err(JwtError::WrongKind { expected, got }) => expected is Access && got is Refresh
                    && (token_claims(token@, self.secret@, Some(self.issuer@)) matches Some(c)
                    && has_access_claims(c) && kind_of(claim(c, "kind"@, 0)) == Some(
                    TokenKind::Refresh,
                )),
                Err(JwtError::Encode(m)) => if m@ == expired_text() {
                    token_claims(token@, self.secret@, None) matches Some(c)
                        && has_access_claims(c)
                } else {
                    token_claims(token@, self.secret@, Some(self.issuer@)) matches Some(c)
                        ==> !has_access_claims(c)
                },
                Err(JwtError::Expired) => false,
            },
            token_claims(token@, self.secret@, None) matches Some(c) && !has_access_claims(c) ==> (
            r matches Err(JwtError::Encode(m)) && m@ == "JSON error: malformed claims"@),
            forall|sub: u128, admin: bool, exp: i64, iat: i64|
                token@ == (#[trigger] signed_token(
                    access_model(sub, admin, exp, iat, self.issuer@),
                    self.secret@,
                )) && exp >= 0 ==> match r {
                    Ok(a) => a.sub == sub && a.admin == admin && a.exp == exp && a.iat == iat,
                    Err(e) => e matches JwtError::Encode(m) && m@ == expired_text(),
                },
            forall|sub: u128, jti: u128, exp: i64, iat: i64|
                token@ == (#[trigger] signed_token(
                    refresh_model(sub, jti, exp, iat, self.issuer@),
                    self.secret@,
                )) && exp >= 0 ==> r is Err,
    {
        proof {
            assert forall|sub: u128, admin: bool, exp: i64, iat: i64| exp >= 0 implies issued_by(
                #[trigger] access_model(sub, admin, exp, iat, self.issuer@),
                self.issuer@,
            ) by {
                lemma_access_model(sub, admin, exp, iat, self.issuer@);
            }
            assert forall|sub: u128, jti: u128, exp: i64, iat: i64| exp >= 0 implies issued_by(
                #[trigger] refresh_model(sub, jti, exp, iat, self.issuer@),
                self.issuer@,
            ) by {
                lemma_refresh_model(sub, jti, exp, iat, self.issuer@);
            }
        }
        let secret = self.secret.text.as_str();
        let signed = signed_claims(token, secret);
        let refusal = match decode(token, secret, Some(self.issuer.as_str())) {
            Ok(_) => None,
            Err(m) => Some(m),
        };
        proof {
            lemma_messages();
            if let Ok(c) = &signed {
                assert forall|sub: u128, admin: bool, exp: i64, iat: i64|
                    claims_view(c@) == #[trigger] access_model(
                        sub,
                        admin,
                        exp,
                        iat,
                        self.issuer@,
                    ) implies access_once(claims_view(c@)) && claim(claims_view(c@), "sub"@, 0)
                    == Some(ClaimModel::Text(ids::uuid_text(sub))) && kind_of(claim(claims_view(c@), "kind"@, 0)) == Some(TokenKind::Access)
                    && flag_of(claim(claims_view(c@), "admin"@, 0)) == Some(admin)
                    && number_of(claim(claims_view(c@), "exp"@, 0)) == Some(exp)
                    && number_of(claim(claims_view(c@), "iat"@, 0)) == Some(iat) && text_of(
                    claim(claims_view(c@), "iss"@, 0),
                ) == Some(self.issuer@) by {
                    lemma_access_model(sub, admin, exp, iat, self.issuer@);
                }
                assert forall|sub: u128, jti: u128, exp: i64, iat: i64|
                    claims_view(c@) == #[trigger] refresh_model(
                        sub,
                        jti,
                        exp,
                        iat,
                        self.issuer@,
                    ) implies claim(claims_view(c@), "admin"@, 0) is None by {
                    lemma_refresh_model(sub, jti, exp, iat, self.issuer@);
                }
            }
        }
        access_outcome(signed, refusal)
    }

    /// Who a refresh token says may sign in again: what [`refresh_outcome`]
    /// makes of the decoded token. A token that [`issue_refresh`] made gives
    /// back what it was made for until it has expired; an access token is no
    /// refresh token.
    ///
    /// [`issue_refresh`]: Issuer::issue_refresh
    pub fn verify_refresh(&self, token: &str) -> (r: Result<RefreshClaims, JwtError>)
        ensures
            match r {
                Ok(a) => token_claims(token@, self.secret@, Some(self.issuer@)) matches Some(c)
                    && is_refresh(a, c) && a.kind is Refresh && a.iss@ == self.issuer@,
                Err(JwtError::WrongKind { expected, got }) => expected is Refresh && got is Access
                    && (token_claims(token@, self.secret@, Some(self.issuer@)) matches Some(c)
                    && has_refresh_claims(c) && kind_of(claim(c, "kind"@, 0)) == Some(
                    TokenKind::Access,
                )),
                Err(JwtError::Encode(m)) => if m@ == expired_text() {
                    token_claims(token@, self.secret@, None) matches Some(c)
                        && has_refresh_claims(c)
                } else {
                    token_claims(token@, self.secret@, Some(self.issuer@)) matches Some(c)
                        ==> !has_refresh_claims(c)
                },
                Err(JwtError::Expired) => false,
            },
            token_claims(token@, self.secret@, None) matches Some(c) && !has_refresh_claims(c) ==> (
            r matches Err(JwtError::Encode(m)) && m@ == "JSON error: malformed claims"@),
            forall|sub: u128, jti: u128, exp: i64, iat: i64|
                token@ == (#[trigger] signed_token(
                    refresh_model(sub, jti, exp, iat, self.issuer@),
                    self.secret@,
                )) && exp >= 0 ==> match r {
                    Ok(a) => a.sub == sub && a.jti == jti && a.exp == exp && a.iat == iat,
                    Err(e) => e matches JwtError::Encode(m) && m@ == expired_text(),
                },
            forall|sub: u128, admin: bool, exp: i64, iat: i64|
                token@ == (#[trigger] signed_token(
                    access_model(sub, admin, exp, iat, self.issuer@),
                    self.secret@,
                )) && exp >= 0 ==> r is Err,
    {
        proof {
            assert forall|sub: u128, admin: bool, exp: i64, iat: i64| exp >= 0 implies issued_by(
                #[trigger] access_model(sub, admin, exp, iat, self.issuer@),
                self.issuer@,
            ) by {
                lemma_access_model(sub, admin, exp, iat, self.issuer@);
            }
            assert forall|sub: u128, jti: u128, exp: i64, iat: i64| exp >= 0 implies issued_by(
                #[trigger] refresh_model(sub, jti, exp, iat, self.issuer@),
                self.issuer@,
            ) by {
                lemma_refresh_model(sub, jti, exp, iat, self.issuer@);
            }
        }
        let secret = self.secret.text.as_str();
        let signed = signed_claims(token, secret);
        let refusal = match decode(token, secret, Some(self.issuer.as_str())) {
            Ok(_) => None,
            Err(m) => Some(m),
        };
        proof {
            lemma_messages();
            if let Ok(c) = &signed {
                lemma_names();
                assert forall|sub: u128, jti: u128, exp: i64, iat: i64|
                    claims_view(c@) == #[trigger] refresh_model(
                        sub,
                        jti,
                        exp,
                        iat,
                        self.issuer@,
                    ) implies refresh_once(claims_view(c@)) && claim(claims_view(c@), "sub"@, 0)
                    == Some(ClaimModel::Text(ids::uuid_text(sub))) && claim(claims_view(c@), "jti"@, 0) == Some(
                    ClaimModel::Text(ids::uuid_text(jti)),
                ) && kind_of(claim(claims_view(c@), "kind"@, 0)) == Some(TokenKind::Refresh)
                    && number_of(claim(claims_view(c@), "exp"@, 0)) == Some(exp)
                    && number_of(claim(claims_view(c@), "iat"@, 0)) == Some(iat) && text_of(
                    claim(claims_view(c@), "iss"@, 0),
                ) == Some(self.issuer@) by {
                    lemma_refresh_model(sub, jti, exp, iat, self.issuer@);
                }
                assert forall|sub: u128, admin: bool, exp: i64, iat: i64|
                    claims_view(c@) == #[trigger] access_model(
                        sub,
                        admin,
                        exp,
                        iat,
                        self.issuer@,
                    ) implies claim(claims_view(c@), "jti"@, 0) is None by {
                    lemma_access_model(sub, admin, exp, iat, self.issuer@);
                }
            }
        }
        refresh_outcome(signed, refusal)
    }
}

// ---------------------------------------------------------------------------
// Laws
// ---------------------------------------------------------------------------

proof fn lemma_claim_at(c: Seq<(Seq<char>, ClaimModel)>, name: Seq<char>, from: int, i: int)
    requires
        0 <= from <= i < c.len(),
        c[i].0 == name,
        !repeated(c, name),
    ensures
        claim(c, name, from) == Some(c[i].1),
    decreases c.len() - from,
{
    if from < i {
        assert(c[from].0 != name) by {
            if c[from].0 == name {
                assert(c[from].0 == name && c[i].0 == name);
                assert(repeated(c, name));
            }
        }
        lemma_claim_at(c, name, from + 1, i);
    }
}

/// Every claim is what the member of its name holds, wherever that stands; one
/// that holds something else, or is given twice, is no claim.
pub proof fn access_claims_are_read_by_name(
    c: &Vec<(String, ClaimValue)>,
    r: Option<AccessClaims>,
    i: int,
    id: u128,
)
    requires
        call_ensures(read_access, (c,), r),
        r is Some,
        0 <= i < c@.len(),
    ensures
        c@[i].0@ == "exp"@ ==> c@[i].1@ == ClaimModel::Number(r->0.exp),
        c@[i].0@ == "iat"@ ==> c@[i].1@ == ClaimModel::Number(r->0.iat),
        c@[i].0@ == "admin"@ ==> c@[i].1@ == ClaimModel::Flag(r->0.admin),
        c@[i].0@ == "iss"@ ==> c@[i].1@ == ClaimModel::Text(r->0.iss@),
        c@[i].0@ == "kind"@ && r->0.kind is Access ==> c@[i].1@ == ClaimModel::Text("access"@),
        c@[i].0@ == "kind"@ && r->0.kind is Refresh ==> c@[i].1@ == ClaimModel::Text("refresh"@),
        c@[i].0@ == "sub"@ && c@[i].1@ == ClaimModel::Text(ids::uuid_text(id)) ==> r->0.sub == id,
{
    let m = claims_view(c@);
    let n = c@[i].0@;
    assert(m[i].0 == n && m[i].1 == c@[i].1@);
    if n == "exp"@ || n == "iat"@ || n == "admin"@ || n == "iss"@ || n == "kind"@ || n == "sub"@ {
        lemma_claim_at(m, n, 0, i);
    }
}

/// Every claim is what the member of its name holds, wherever that stands; one
/// that holds something else, or is given twice, is no claim.
pub proof fn refresh_claims_are_read_by_name(
    c: &Vec<(String, ClaimValue)>,
    r: Option<RefreshClaims>,
    i: int,
    j: int,
    sub: u128,
    jti: u128,
)
    requires
        call_ensures(read_refresh, (c,), r),
        r is Some,
        0 <= i < c@.len(),
        0 <= j < c@.len(),
    ensures
        c@[i].0@ == "exp"@ ==> c@[i].1@ == ClaimModel::Number(r->0.exp),
        c@[i].0@ == "iat"@ ==> c@[i].1@ == ClaimModel::Number(r->0.iat),
        c@[i].0@ == "iss"@ ==> c@[i].1@ == ClaimModel::Text(r->0.iss@),
        c@[i].0@ == "kind"@ && r->0.kind is Access ==> c@[i].1@ == ClaimModel::Text("access"@),
        c@[i].0@ == "kind"@ && r->0.kind is Refresh ==> c@[i].1@ == ClaimModel::Text("refresh"@),
        c@[i].0@ == "sub"@ && c@[i].1@ == ClaimModel::Text(ids::uuid_text(sub)) && c@[j].0@ == "jti"@
            && c@[j].1@ == ClaimModel::Text(ids::uuid_text(jti)) ==> r->0.sub == sub && r->0.jti
            == jti,
{
    let m = claims_view(c@);
    let n = c@[i].0@;
    assert(m[i].0 == n && m[i].1 == c@[i].1@);
    assert(m[j].0 == c@[j].0@ && m[j].1 == c@[j].1@);
    if n == "exp"@ || n == "iat"@ || n == "iss"@ || n == "kind"@ || n == "sub"@ {
        lemma_claim_at(m, n, 0, i);
    }
    if c@[j].0@ == "jti"@ {
        lemma_claim_at(m, "jti"@, 0, j);
    }
}

/// Claims are refused for their signature first, then for what they lack, then
/// for what validation said, and then for their kind; otherwise they are what
/// they hold.
pub proof fn token_is_refused_in_order(
    c: Vec<(String, ClaimValue)>,
    bad: String,
    refusal: Option<String>,
    read: Option<AccessClaims>,
    unsigned: Result<AccessClaims, JwtError>,
    r: Result<AccessClaims, JwtError>,
)
    requires
        call_ensures(read_access, (&c,), read),
        call_ensures(access_outcome, (Err::<Vec<(String, ClaimValue)>, String>(bad), refusal), unsigned),
        call_ensures(access_outcome, (Ok::<Vec<(String, ClaimValue)>, String>(c), refusal), r),
    ensures
        unsigned is Err && unsigned->Err_0 == JwtError::Encode(bad),
        r is Ok <==> read is Some && refusal is None && read->0.kind is Access,
        r is Ok ==> r->Ok_0.sub == read->0.sub && r->Ok_0.admin == read->0.admin && r->Ok_0.exp
            == read->0.exp && r->Ok_0.iat == read->0.iat && r->Ok_0.kind is Access,
        read is None ==> r is Err && r->Err_0 is Encode,
        read is Some && refusal is Some ==> r is Err && r->Err_0 == JwtError::Encode(refusal->0),
        read is Some && refusal is None && read->0.kind is Refresh ==> r is Err && r->Err_0
            == (JwtError::WrongKind { expected: TokenKind::Access, got: TokenKind::Refresh }),
{
}

/// Claims to sign in again are refused in the same order.
pub proof fn refresh_token_is_refused_in_order(
    c: Vec<(String, ClaimValue)>,
    bad: String,
    refusal: Option<String>,
    read: Option<RefreshClaims>,
    unsigned: Result<RefreshClaims, JwtError>,
    r: Result<RefreshClaims, JwtError>,
)
    requires
        call_ensures(read_refresh, (&c,), read),
        call_ensures(
            refresh_outcome,
            (Err::<Vec<(String, ClaimValue)>, String>(bad), refusal),
            unsigned,
        ),
        call_ensures(refresh_outcome, (Ok::<Vec<(String, ClaimValue)>, String>(c), refusal), r),
    ensures
        unsigned is Err && unsigned->Err_0 == JwtError::Encode(bad),
        r is Ok <==> read is Some && refusal is None && read->0.kind is Refresh,
        r is Ok ==> r->Ok_0.sub == read->0.sub && r->Ok_0.jti == read->0.jti && r->Ok_0.exp
            == read->0.exp && r->Ok_0.iat == read->0.iat && r->Ok_0.kind is Refresh,
        read is None ==> r is Err && r->Err_0 is Encode,
        read is Some && refusal is Some ==> r is Err && r->Err_0 == JwtError::Encode(refusal->0),
        read is Some && refusal is None && read->0.kind is Access ==> r is Err && r->Err_0
            == (JwtError::WrongKind { expected: TokenKind::Refresh, got: TokenKind::Access }),
{
}

/// A token for access tells whom it was made for, since when and until when: as
/// long after it was made as such tokens last. It is refused only once it has
/// expired, and never lets anyone sign in again.
pub proof fn access_token_tells_whom_it_is_for(
    issuer: &Issuer,
    user: UserId,
    admin: bool,
    now: i64,
    made: Result<String, JwtError>,
    token: &str,
    r: Result<AccessClaims, JwtError>,
    again: Result<RefreshClaims, JwtError>,
)
    requires
        0 <= now <= clock::LATEST_MS,
        0 <= issuer.access_ttl <= clock::LONGEST_SECS,
        call_ensures(Issuer::access_token_at, (issuer, user, admin, now), made),
        token@ == made->Ok_0@,
        call_ensures(Issuer::verify_access, (issuer, token), r),
        call_ensures(Issuer::verify_refresh, (issuer, token), again),
    ensures
        made is Ok,
        r is Ok ==> r->Ok_0.sub == user.0 && r->Ok_0.admin == admin && r->Ok_0.kind is Access,
        r is Ok ==> r->Ok_0.exp - r->Ok_0.iat == issuer.access_ttl,
        r is Ok ==> r->Ok_0.iat * 1000 <= now < (r->Ok_0.iat + 1) * 1000,
        r is Ok ==> r->Ok_0.iss@ == issuer.issuer@,
        r is Err ==> r->Err_0 is Encode && r->Err_0->Encode_0@ == "ExpiredSignature"@,
        again is Err,
{
}

/// A token to sign in again tells whom it was made for, under its own
/// identifier, since when and until when. It is refused only once it has
/// expired, and never gives access.
pub proof fn refresh_token_tells_whom_it_is_for(
    issuer: &Issuer,
    user: UserId,
    jti: u128,
    ttl: i64,
    now: i64,
    made: Result<String, JwtError>,
    token: &str,
    r: Result<RefreshClaims, JwtError>,
    access: Result<AccessClaims, JwtError>,
)
    requires
        0 <= now <= clock::LATEST_MS,
        0 <= ttl <= clock::LONGEST_SECS,
        call_ensures(Issuer::refresh_token_at, (issuer, user, jti, ttl, now), made),
        token@ == made->Ok_0@,
        call_ensures(Issuer::verify_refresh, (issuer, token), r),
        call_ensures(Issuer::verify_access, (issuer, token), access),
    ensures
        made is Ok,
        r is Ok ==> r->Ok_0.sub == user.0 && r->Ok_0.jti == jti && r->Ok_0.kind is Refresh,
        r is Ok ==> r->Ok_0.exp - r->Ok_0.iat == ttl,
        r is Ok ==> r->Ok_0.iat * 1000 <= now < (r->Ok_0.iat + 1) * 1000,
        r is Ok ==> r->Ok_0.iss@ == issuer.issuer@,
        r is Err ==> r->Err_0 is Encode && r->Err_0->Encode_0@ == "ExpiredSignature"@,
        access is Err,
{
}

/// What is issued now expires as long after now as it lasts: the identifier
/// and the instant that come with it are its own.
pub proof fn issued_token_is_stored_as_it_is(
    issuer: &Issuer,
    user: UserId,
    ttl: i64,
    made: Result<(String, u128, i64), JwtError>,
    token: &str,
    r: Result<RefreshClaims, JwtError>,
)
    requires
        is_ttl(ttl),
        call_ensures(Issuer::issue_refresh_for, (issuer, user, ttl), made),
        made is Ok && (made->Ok_0).2 >= 0,
        token@ == (made->Ok_0).0@,
        call_ensures(Issuer::verify_refresh, (issuer, token), r),
    ensures
        r is Ok ==> r->Ok_0.sub == user.0 && r->Ok_0.jti == (made->Ok_0).1,
        r is Ok ==> r->Ok_0.exp - r->Ok_0.iat == ttl,
        r is Ok ==> r->Ok_0.exp * 1000 <= (made->Ok_0).2 < (r->Ok_0.exp + 1) * 1000,
        r is Err ==> r->Err_0 is Encode && r->Err_0->Encode_0@ == "ExpiredSignature"@,
{
    let jti = (made->Ok_0).1;
    let now = choose|now: i64|
        clock::EARLIEST_MS <= now <= clock::LATEST_MS && (made->Ok_0).0@
            == #[trigger] issuer.refresh_token(user, jti, ttl, now) && (made->Ok_0).2 == now + ttl
            * 1000;
    assert(clock::whole_seconds(now) + ttl >= 0);
}

/// A shorter lifetime fits where a longer one does, before or after an
/// instant, and a hundred years fit.
pub proof fn shorter_lifetimes_fit(a: i64, b: i64, ra: bool, rb: bool)
    requires
        call_ensures(ttl_fits, (a,), ra),
        call_ensures(ttl_fits, (b,), rb),
    ensures
        0 <= a <= b && rb ==> ra,
        b <= a <= 0 && rb ==> ra,
        a == -b ==> ra == rb,
        -3_155_760_000 <= a <= 3_155_760_000 ==> ra,
{
}

/// An issuer is what it was made with.
pub proof fn issuer_is_as_made(secret: &str, name: String, access: i64, refresh: i64, r: Issuer)
    requires
        call_ensures(Issuer::new, (secret, name, access, refresh), r),
    ensures
        r.secret@ == secret@ && r.issuer == name && r.access_ttl == access && r.refresh_ttl
            == refresh,
{
}

/// What went wrong with a token, in words: which kind was wanted, and which
/// came.
pub proof fn errors_of_tokens_are_told(e: &JwtError, m: String)
    requires
        call_ensures(JwtError::message, (e,), m),
    ensures
        e is Encode ==> m@ == "jwt error: "@ + e->Encode_0@,
        e is Expired ==> m@ == "token expired"@,
        e is WrongKind && e->expected is Access && e->got is Refresh ==> m@
            == "invalid token kind: expected "@ + "Access"@ + ", got "@ + "Refresh"@,
        e is WrongKind && e->expected is Refresh && e->got is Access ==> m@
            == "invalid token kind: expected "@ + "Refresh"@ + ", got "@ + "Access"@,
{
}

/// A token that is issued now is for its user, and no other kind of token is.
pub proof fn issued_tokens_are_for_their_user(
    issuer: &Issuer,
    user: UserId,
    admin: bool,
    access: Result<String, JwtError>,
    made: Result<(String, u128, i64), JwtError>,
    a: &str,
    b: &str,
    ra: Result<AccessClaims, JwtError>,
    rb: Result<RefreshClaims, JwtError>,
)
    requires
        is_ttl(issuer.access_ttl),
        is_ttl(issuer.refresh_ttl),
        issuer.access_ttl >= -(clock::EARLIEST_MS / 1000),
        call_ensures(Issuer::issue_access, (issuer, user, admin), access),
        call_ensures(Issuer::issue_refresh, (issuer, user), made),
        access is Ok && made is Ok && (made->Ok_0).2 >= 0,
        a@ == access->Ok_0@,
        b@ == (made->Ok_0).0@,
        call_ensures(Issuer::verify_access, (issuer, a), ra),
        call_ensures(Issuer::verify_refresh, (issuer, b), rb),
    ensures
        ra is Ok ==> ra->Ok_0.sub == user.0 && ra->Ok_0.admin == admin && ra->Ok_0.exp
            - ra->Ok_0.iat == issuer.access_ttl,
        rb is Ok ==> rb->Ok_0.sub == user.0 && rb->Ok_0.jti == (made->Ok_0).1 && rb->Ok_0.exp
            - rb->Ok_0.iat == issuer.refresh_ttl,
{
    let jti = (made->Ok_0).1;
    let ttl = issuer.refresh_ttl;
    let now = choose|now: i64|
        clock::EARLIEST_MS <= now <= clock::LATEST_MS && (made->Ok_0).0@
            == #[trigger] issuer.refresh_token(user, jti, ttl, now) && (made->Ok_0).2 == now + ttl
            * 1000;
    assert(clock::whole_seconds(now) + ttl >= 0);
    let then = choose|then: i64|
        clock::EARLIEST_MS <= then <= clock::LATEST_MS && access->Ok_0@
            == #[trigger] issuer.access_token(user, admin, then);
    assert(clock::whole_seconds(then) + issuer.access_ttl >= 0);
}

/// A token that is refused is refused as one that cannot be read or as one of
/// the other kind.
pub proof fn refusals_are_of_two_kinds(
    issuer: &Issuer,
    token: &str,
    a: Result<AccessClaims, JwtError>,
    b: Result<RefreshClaims, JwtError>,
)
    requires
        call_ensures(Issuer::verify_access, (issuer, token), a),
        call_ensures(Issuer::verify_refresh, (issuer, token), b),
    ensures
        a is Err ==> a->Err_0 is Encode || (a->Err_0 is WrongKind && a->Err_0->expected is Access
            && a->Err_0->got is Refresh),
        b is Err ==> b->Err_0 is Encode || (b->Err_0 is WrongKind && b->Err_0->expected is Refresh
            && b->Err_0->got is Access),
        a is Ok ==> a->Ok_0.kind is Access && a->Ok_0.iss@ == issuer.issuer@,
        b is Ok ==> b->Ok_0.kind is Refresh && b->Ok_0.iss@ == issuer.issuer@,
{
}

} // verus!
