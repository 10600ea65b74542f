//! Accounts and sessions.

use vstd::prelude::*;

use crate::api_error;
use crate::api_error::{ApiError, Failure};
use crate::clock;
use crate::config::AuthConfig;
use crate::extract;
use crate::invitation;
use crate::jwt;
use crate::jwt::{Issuer, JwtError, RefreshClaims, TokenKind};
use crate::me;
use crate::password;
use crate::text;
use crate::user::{User, UserId};

verus! {

/// The form in which an address is stored and looked up: without white space
/// around it, and in lower case.
pub open spec fn normal_email(raw: Seq<char>) -> Seq<char> {
    text::lowered(text::trimmed(raw))
}

/// The form in which an address is stored and looked up.
pub fn normalize_email(raw: &str) -> (r: String)
    ensures
        r@ == normal_email(raw@),
{
    let t = text::trim(raw);
    text::to_ascii_lowercase(t.as_str())
}

/// Addresses that differ in the case of their letters only are one.
pub proof fn letter_case_is_ignored(a: Seq<char>, b: Seq<char>)
    requires
        text::lowered(a) == text::lowered(b),
    ensures
        normal_email(a) == normal_email(b),
{
    lemma_trim_ignores_case(a, b);
}

proof fn lemma_same_length(a: Seq<char>, b: Seq<char>)
    requires
        text::lowered(a) == text::lowered(b),
    ensures
        a.len() == b.len(),
        forall|i: int|
            0 <= i < a.len() ==> text::lower_char(#[trigger] a[i]) == text::lower_char(b[i]),
        forall|i: int|
            0 <= i < a.len() ==> text::is_white_space(#[trigger] a[i]) == text::is_white_space(
                b[i],
            ),
{
    assert(text::lowered(a).len() == a.len());
    assert(text::lowered(b).len() == b.len());
    assert forall|i: int| 0 <= i < a.len() implies text::lower_char(#[trigger] a[i])
        == text::lower_char(b[i]) by {
        assert(text::lowered(a)[i] == text::lower_char(a[i]));
        assert(text::lowered(b)[i] == text::lower_char(b[i]));
    }
}

proof fn lemma_start_ignores_case(a: Seq<char>, b: Seq<char>)
    requires
        text::lowered(a) == text::lowered(b),
    ensures
        text::lowered(text::trimmed_start(a)) == text::lowered(text::trimmed_start(b)),
    decreases a.len(),
{
    lemma_same_length(a, b);
    if a.len() > 0 && text::is_white_space(a[0]) {
        assert(text::lowered(a.skip(1)) =~= text::lowered(a).skip(1));
        assert(text::lowered(b.skip(1)) =~= text::lowered(b).skip(1));
        lemma_start_ignores_case(a.skip(1), b.skip(1));
    }
}

proof fn lemma_end_ignores_case(a: Seq<char>, b: Seq<char>)
    requires
        text::lowered(a) == text::lowered(b),
    ensures
        text::lowered(text::trimmed_end(a)) == text::lowered(text::trimmed_end(b)),
    decreases a.len(),
{
    lemma_same_length(a, b);
    if a.len() > 0 && text::is_white_space(a.last()) {
        assert(text::lowered(a.drop_last()) =~= text::lowered(a).drop_last());
        assert(text::lowered(b.drop_last()) =~= text::lowered(b).drop_last());
        lemma_end_ignores_case(a.drop_last(), b.drop_last());
    }
}

proof fn lemma_trim_ignores_case(a: Seq<char>, b: Seq<char>)
    requires
        text::lowered(a) == text::lowered(b),
    ensures
        text::lowered(text::trimmed(a)) == text::lowered(text::trimmed(b)),
{
    lemma_start_ignores_case(a, b);
    lemma_end_ignores_case(a, b);
    lemma_end_ignores_case(text::trimmed_start(a), text::trimmed_start(b));
    lemma_start_ignores_case(text::trimmed_end(a), text::trimmed_end(b));
}

/// A normalised address is its own normal form.
pub proof fn normalizing_twice_is_normalizing_once(raw: Seq<char>)
    ensures
        normal_email(normal_email(raw)) == normal_email(raw),
{
    let t = text::trimmed(raw);
    let n = text::lowered(t);
    text::lemma_lowered(t);
    text::lemma_trimmed(raw);
    assert(text::lowered(n) =~= n) by {
        assert forall|i: int| 0 <= i < n.len() implies text::lowered(n)[i] == n[i] by {
            assert(n[i] == text::lower_char(t[i]));
        }
    }
    letter_case_is_ignored(n, t);
    text::lemma_trimmed(t);
}

// ---------------------------------------------------------------------------
// Accounts
// ---------------------------------------------------------------------------

#[derive(Debug, Clone)]
pub struct RegisterRequest {
    pub invite_token: String,
    pub email: String,
    pub password: String,
}

#[derive(Debug, Clone)]
pub struct LoginRequest {
    pub email: String,
    pub password: String,
}

#[derive(Debug, Clone)]
pub struct UserResponse {
    pub id: u128,
    pub email: String,
    pub display_name: String,
    pub is_admin: bool,
}

/// A user as the user sees it.
pub fn user_response(user: User) -> (r: UserResponse)
    ensures
        r == (UserResponse {
            id: user.id.0,
            email: user.email,
            display_name: user.display_name,
            is_admin: user.is_admin,
        }),
{
    UserResponse {
        id: user.id.0,
        email: user.email,
        display_name: user.display_name,
        is_admin: user.is_admin,
    }
}

/// What is stored of a new account, and looked up for it.
#[derive(Debug)]
pub struct NewAccount {
    pub email: String,
    pub password_hash: String,
    pub invite_hash: String,
}

/// The address that a request registers, if the request can be granted: the
/// password has at least eight bytes, and the address at least three, one of
/// which is an at sign.
pub fn check_registration(req: &RegisterRequest) -> (r: Result<String, ApiError>)
    ensures
        if text::byte_len(req.password@) < 8 {
            r matches Err(e) && e@ == Failure::BadRequest("password too short (min 8)"@)
        } else if !normal_email(req.email@).contains('@') || text::byte_len(
            normal_email(req.email@),
        ) < 3 {
            r matches Err(e) && e@ == Failure::BadRequest("invalid email"@)
        } else {
            r matches Ok(m) && m@ == normal_email(req.email@)
        },
{
    if text::byte_length(req.password.as_str()) < 8 {
        return Err(api_error::bad_request("password too short (min 8)"));
    }
    let email = normalize_email(req.email.as_str());
    if !text::has_char(email.as_str(), '@') || text::byte_length(email.as_str()) < 3 {
        return Err(api_error::bad_request("invalid email"));
    }
    Ok(email)
}

/// The account that is registered, by what hashing its password gave.
pub fn new_account(email: String, invite_hash: String, hash: Result<String, ApiError>) -> (r: Result<
    NewAccount,
    ApiError,
>)
    ensures
        match hash {
            Ok(h) => r == Ok::<NewAccount, ApiError>(
                (NewAccount { email, password_hash: h, invite_hash }),
            ),
            Err(e) => r == Err::<NewAccount, ApiError>(e),
        },
{
    match hash {
        Ok(password_hash) => Ok(NewAccount { email, password_hash, invite_hash }),
        Err(e) => Err(e),
    }
}

/// The account that a request registers: what [`new_account`] makes of the
/// address, the invitation and the hash of the password.
pub fn register(req: &RegisterRequest) -> (r: Result<NewAccount, ApiError>)
    ensures
        if text::byte_len(req.password@) < 8 {
            r matches Err(e) && e@ == Failure::BadRequest("password too short (min 8)"@)
        } else if !normal_email(req.email@).contains('@') || text::byte_len(
            normal_email(req.email@),
        ) < 3 {
            r matches Err(e) && e@ == Failure::BadRequest("invalid email"@)
        } else {
            match r {
                Ok(a) => {
                    &&& a.email@ == normal_email(req.email@)
                    &&& a.invite_hash@ == invitation::stored_form(req.invite_token@)
                    &&& password::is_hash_of(req.password@, a.password_hash@)
                },
                Err(e) => e@ is Internal && password::is_hash_fault(
                    "hash: argon2 error: "@,
                    req.password@,
                    e@->Internal_0,
                ),
            }
        },
{
    let email = match check_registration(req) {
        Ok(m) => m,
        Err(e) => return Err(e),
    };
    let invite_hash = invitation::hash_invitation_token(req.invite_token.as_str());
    new_account(email, invite_hash, me::new_hash(req.password.as_str()))
}

/// The invitation that a registration uses, which has to be there.
pub fn active_invitation(found: Option<u128>) -> (r: Result<u128, ApiError>)
    ensures
        match found {
            Some(id) => r == Ok::<u128, ApiError>(id),
            None => r matches Err(e) && e@ == Failure::BadRequest(
                "invalid or expired invitation"@,
            ),
        },
{
    match found {
        Some(id) => Ok(id),
        None => Err(api_error::bad_request("invalid or expired invitation")),
    }
}

/// An address is registered once.
pub fn free_email(taken: bool) -> (r: Result<(), ApiError>)
    ensures
        if taken {
            r matches Err(e) && e@ == Failure::Conflict("email already registered"@)
        } else {
            r is Ok
        },
{
    if taken {
        Err(api_error::conflict("email already registered"))
    } else {
        Ok(())
    }
}

/// An invitation is used once: where another registration was faster, this
/// one is undone.
pub fn consumed_invitation(consumed: bool) -> (r: Result<(), ApiError>)
    ensures
        if consumed {
            r is Ok
        } else {
            r matches Err(e) && e@ == Failure::Conflict("invitation already used"@)
        },
{
    if consumed {
        Ok(())
    } else {
        Err(api_error::conflict("invitation already used"))
    }
}

/// Whether a password lets a user in. For an address that nobody registered,
/// the password is held against a hash that is nobody's, so that the answer
/// takes as long as for a wrong password.
pub fn login(password: &str, stored: Option<&str>, nobodys_hash: &str) -> (r: Result<(), ApiError>)
    ensures
        match stored {
            None => r matches Err(e) && e@ == Failure::Unauthorized,
            Some(h) => match password::password_check(password@, h@) {
                Some(ok) => if ok {
                    r is Ok
                } else {
                    r matches Err(e) && e@ == Failure::Unauthorized
                },
                None => r matches Err(e) && e@ is Internal
                    && "verify: argon2 error: "@.is_prefix_of(e@->Internal_0),
            },
        },
{
    match stored {
        None => {
            let _ = password::verify_password(password, nobodys_hash);
        },
        Some(_) => {},
    }
    me::check_old_password(password, stored)
}

// ---------------------------------------------------------------------------
// Sessions
// ---------------------------------------------------------------------------

/// Seconds for which a rotated token still counts: of several requests that
/// rotate one token at a time, the first wins, and the others come too late.
pub const REFRESH_ROTATION_GRACE_SECS: i64 = 60;

/// The device that a session belongs to.
#[derive(Debug)]
pub struct DeviceInfo {
    pub device_label: Option<String>,
    pub device_kind: Option<String>,
}

/// Who may sign in again, by the refresh cookie.
pub fn refresh_claims(issuer: &Issuer, cookie: Option<&str>) -> (r: Result<RefreshClaims, ApiError>)
    ensures
        r matches Err(e) ==> e@ == Failure::Unauthorized,
        match cookie {
            None => r is Err,
            Some(t) => {
                &&& r matches Ok(a) ==> {
                    &&& jwt::token_claims(t@, issuer.secret@, Some(issuer.issuer@)) matches Some(c)
                        && jwt::is_refresh(a, c)
                    &&& a.kind is Refresh
                    &&& a.iss@ == issuer.issuer@
                }
                &&& forall|sub: u128, jti: u128, exp: i64, iat: i64|
                    t@ == (#[trigger] jwt::signed_token(
                        jwt::refresh_model(sub, jti, exp, iat, issuer.issuer@),
                        issuer.secret@,
                    )) && exp >= 0 && r is Ok ==> r->Ok_0.sub == sub && r->Ok_0.jti == jti
                &&& forall|sub: u128, admin: bool, exp: i64, iat: i64|
                    t@ == (#[trigger] jwt::signed_token(
                        jwt::access_model(sub, admin, exp, iat, issuer.issuer@),
                        issuer.secret@,
                    )) && exp >= 0 ==> r is Err
            },
        },
{
    match cookie {
        None => Err(ApiError::Unauthorized),
        Some(t) => match issuer.verify_refresh(t) {
            Ok(c) => Ok(c),
            Err(_) => Err(ApiError::Unauthorized),
        },
    }
}

/// What follows the lookup of an active token.
pub enum RefreshStep {
    /// Mark it as rotated, and go on for its device.
    Rotate(DeviceInfo),
    /// Look for one that was rotated at most so many seconds ago.
    LookUpRotated(i64),
}

/// What follows the lookup of an active token.
pub fn refresh(active: Option<DeviceInfo>) -> (r: RefreshStep)
    ensures
        r == match active {
            Some(d) => RefreshStep::Rotate(d),
            None => RefreshStep::LookUpRotated(REFRESH_ROTATION_GRACE_SECS),
        },
{
    match active {
        Some(d) => RefreshStep::Rotate(d),
        None => RefreshStep::LookUpRotated(REFRESH_ROTATION_GRACE_SECS),
    }
}

/// What follows the lookup of a token that was rotated a moment ago: its
/// session is alive. A token that was revoked, or rotated long ago, is
/// refused.
pub fn refresh_straggler(rotated: Option<DeviceInfo>) -> (r: Result<DeviceInfo, ApiError>)
    ensures
        match rotated {
            Some(d) => r == Ok::<DeviceInfo, ApiError>(d),
            None => r matches Err(e) && e@ == Failure::Unauthorized,
        },
{
    match rotated {
        Some(d) => Ok(d),
        None => Err(ApiError::Unauthorized),
    }
}

/// Lifetime of the token that follows: devices get theirs anew.
pub fn refresh_ttl_override(device: &DeviceInfo, auth: &AuthConfig) -> (r: Option<i64>)
    ensures
        r == match device.device_kind {
            Some(_) => Some(auth.device_refresh_ttl_secs),
            None => None,
        },
{
    match &device.device_kind {
        Some(_) => Some(auth.device_refresh_ttl_secs),
        None => None,
    }
}

/// The user of a session; one who is gone is not signed in.
pub fn session_user(user: Option<User>) -> (r: Result<User, ApiError>)
    ensures
        match user {
            Some(u) => r == Ok::<User, ApiError>(u),
            None => r matches Err(e) && e@ == Failure::Unauthorized,
        },
{
    match user {
        Some(u) => Ok(u),
        None => Err(ApiError::Unauthorized),
    }
}

/// What a refresh token is known by: the identifier among the claims of a text
/// that is a refresh token of the issuer, whether or not it has expired.
pub open spec fn refresh_id(issuer: Issuer, token: Seq<char>) -> Option<u128> {
    match jwt::token_claims(token, issuer.secret@, Some(issuer.issuer@)) {
        Some(c) => if jwt::has_refresh_claims(c) && jwt::kind_of(jwt::claim(c, "kind"@, 0)) == Some(
            TokenKind::Refresh,
        ) && jwt::text_of(jwt::claim(c, "iss"@, 0)) == Some(issuer.issuer@) {
            jwt::id_of(jwt::claim(c, "jti"@, 0))
        } else {
            None
        },
        None => None,
    }
}

/// The token to revoke when a session ends, by what verifying the cookie gave,
/// where there is one: a cookie that does not verify leaves nothing to revoke.
pub fn token_to_revoke(verified: Option<Result<RefreshClaims, JwtError>>) -> (r: Option<u128>)
    ensures
        r == match verified {
            Some(Ok(c)) => Some(c.jti),
            Some(Err(_)) => None,
            None => None,
        },
{
    match verified {
        Some(Ok(c)) => Some(c.jti),
        Some(Err(_)) => None,
        None => None,
    }
}

/// The token to revoke when a session ends, if the cookie holds one: what
/// [`token_to_revoke`] makes of [`Issuer::verify_refresh`] of the cookie. It is
/// the refresh token that the cookie holds, or none where that has expired;
/// nothing else is ever revoked, an access token least of all.
pub fn logout(issuer: &Issuer, cookie: Option<&str>) -> (r: Option<u128>)
    ensures
        match cookie {
            None => r is None,
            Some(t) => {
                &&& r is Some ==> r == refresh_id(*issuer, t@)
                &&& forall|sub: u128, jti: u128, exp: i64, iat: i64|
                    t@ == (#[trigger] jwt::signed_token(
                        jwt::refresh_model(sub, jti, exp, iat, issuer.issuer@),
                        issuer.secret@,
                    )) && exp >= 0 && r is Some ==> r == Some(jti)
                &&& forall|sub: u128, admin: bool, exp: i64, iat: i64|
                    t@ == (#[trigger] jwt::signed_token(
                        jwt::access_model(sub, admin, exp, iat, issuer.issuer@),
                        issuer.secret@,
                    )) && exp >= 0 ==> r is None
            },
        },
{
    let verified = match cookie {
        Some(t) => Some(issuer.verify_refresh(t)),
        None => None,
    };
    token_to_revoke(verified)
}

/// Where the access cookie is sent to.
pub open spec fn access_path() -> Seq<char> {
    "/"@
}

/// Where the refresh cookie is sent to.
pub open spec fn refresh_path() -> Seq<char> {
    "/api/auth"@
}

/// The cookies to clear when a session ends: names and paths.
pub fn cleared_cookies() -> (r: Vec<(String, String)>)
    ensures
        r@.len() == 2,
        r@[0].0@ == extract::ACCESS_COOKIE@ && r@[0].1@ == access_path(),
        r@[1].0@ == extract::REFRESH_COOKIE@ && r@[1].1@ == refresh_path(),
{
    let mut out: Vec<(String, String)> = Vec::new();
    out.push((extract::ACCESS_COOKIE.to_string(), "/".to_string()));
    out.push((extract::REFRESH_COOKIE.to_string(), "/api/auth".to_string()));
    out
}

/// A cookie to set. Scripts do not see it, other sites do not send it, and it
/// lasts for a while that the browser measures by its own clock.
#[derive(Debug)]
pub struct SessionCookie {
    pub name: String,
    pub value: String,
    pub max_age_secs: i64,
    pub path: String,
    /// Withheld over plain HTTP.
    pub secure: bool,
    pub http_only: bool,
    pub same_site_lax: bool,
}

fn build_cookie(name: &str, value: String, ttl: i64, path: &str, secure: bool) -> (r: SessionCookie)
    ensures
        r.name@ == name@,
        r.value == value,
        r.max_age_secs == ttl,
        r.path@ == path@,
        r.secure == secure,
        r.http_only,
        r.same_site_lax,
{
    SessionCookie {
        name: name.to_string(),
        value,
        max_age_secs: ttl,
        path: path.to_string(),
        secure,
        http_only: true,
        same_site_lax: true,
    }
}

/// A session: its cookies, and what is stored of its refresh token.
#[derive(Debug)]
pub struct Session {
    pub access: SessionCookie,
    pub refresh: SessionCookie,
    pub jti: u128,
    /// Milliseconds since the Unix epoch.
    pub expires_at: i64,
}

pub open spec fn override_or(o: Option<i64>, ttl: i64) -> i64 {
    match o {
        Some(t) => t,
        None => ttl,
    }
}

/// A session of a user who signs in.
pub fn issue_session(
    issuer: &Issuer,
    auth: &AuthConfig,
    user_id: UserId,
    is_admin: bool,
    secure: bool,
) -> (r: Result<Session, ApiError>)
    requires
        jwt::is_ttl(issuer.access_ttl),
        jwt::is_ttl(issuer.refresh_ttl),
    ensures
        r is Ok,
        is_session(r->Ok_0, *issuer, *auth, user_id, is_admin, None, secure),
{
    issue_session_for_kind(issuer, auth, user_id, is_admin, None, secure)
}

/// `s` is a session of a user: both cookies hold tokens that were issued for
/// the user, and the refresh token is stored until it expires.
pub open spec fn is_session(
    s: Session,
    issuer: Issuer,
    auth: AuthConfig,
    user: UserId,
    admin: bool,
    ttl_override: Option<i64>,
    secure: bool,
) -> bool {
    &&& s.access.name@ == extract::ACCESS_COOKIE@
    &&& s.access.path@ == access_path()
    &&& s.access.max_age_secs == auth.access_ttl_secs
    &&& exists|now: i64|
        clock::EARLIEST_MS <= now <= clock::LATEST_MS && s.access.value@
            == #[trigger] issuer.access_token(user, admin, now)
    &&& s.refresh.name@ == extract::REFRESH_COOKIE@
    &&& s.refresh.path@ == refresh_path()
    &&& s.refresh.max_age_secs == override_or(ttl_override, auth.refresh_ttl_secs)
    &&& exists|now: i64|
        clock::EARLIEST_MS <= now <= clock::LATEST_MS && s.refresh.value@
            == #[trigger] issuer.refresh_token(
            user,
            s.jti,
            override_or(ttl_override, issuer.refresh_ttl),
            now,
        ) && s.expires_at == now + override_or(ttl_override, issuer.refresh_ttl) * 1000
    &&& s.access.secure == secure && s.access.http_only && s.access.same_site_lax
    &&& s.refresh.secure == secure && s.refresh.http_only && s.refresh.same_site_lax
}

/// The session that tokens make: an access token, a refresh token with its
/// identifier, and when that ends.
pub fn session_of(
    auth: &AuthConfig,
    access: String,
    refresh: (String, u128, i64),
    refresh_ttl_override_secs: Option<i64>,
    secure: bool,
) -> (r: Session)
    ensures
        is_cookie(
            r.access,
            extract::ACCESS_COOKIE@,
            access@,
            auth.access_ttl_secs,
            access_path(),
            secure,
        ),
        is_cookie(
            r.refresh,
            extract::REFRESH_COOKIE@,
            refresh.0@,
            override_or(refresh_ttl_override_secs, auth.refresh_ttl_secs),
            refresh_path(),
            secure,
        ),
        r.jti == refresh.1,
        r.expires_at == refresh.2,
{
    let refresh_ttl: i64 = match refresh_ttl_override_secs {
        Some(t) => t,
        None => auth.refresh_ttl_secs,
    };
    Session {
        access: build_cookie(extract::ACCESS_COOKIE, access, auth.access_ttl_secs, "/", secure),
        refresh: build_cookie(extract::REFRESH_COOKIE, refresh.0, refresh_ttl, "/api/auth", secure),
        jti: refresh.1,
        expires_at: refresh.2,
    }
}

/// `c` is a cookie with a name, a value, an age and a path, as a session has
/// them.
pub open spec fn is_cookie(
    c: SessionCookie,
    name: Seq<char>,
    value: Seq<char>,
    max_age_secs: i64,
    path: Seq<char>,
    secure: bool,
) -> bool {
    &&& c.name@ == name
    &&& c.value@ == value
    &&& c.max_age_secs == max_age_secs
    &&& c.path@ == path
    &&& c.secure == secure
    &&& c.http_only
    &&& c.same_site_lax
}

/// A session of a user: what [`session_of`] makes of new tokens. That of a
/// device may last longer.
pub fn issue_session_for_kind(
    issuer: &Issuer,
    auth: &AuthConfig,
    user_id: UserId,
    is_admin: bool,
    refresh_ttl_override_secs: Option<i64>,
    secure: bool,
) -> (r: Result<Session, ApiError>)
    requires
        jwt::is_ttl(issuer.access_ttl),
        jwt::is_ttl(override_or(refresh_ttl_override_secs, issuer.refresh_ttl)),
    ensures
        r is Ok,
        is_session(
            r->Ok_0,
            *issuer,
            *auth,
            user_id,
            is_admin,
            refresh_ttl_override_secs,
            secure,
        ),
{
    let access = match issuer.issue_access(user_id, is_admin) {
        Ok(t) => t,
        Err(e) => {
            return Err(
                ApiError::Internal(api_error::prefixed("issue access: ", e.message().as_str())),
            );
        },
    };
    let token_ttl: i64 = match refresh_ttl_override_secs {
        Some(t) => t,
        None => issuer.refresh_ttl,
    };
    assert(token_ttl == override_or(refresh_ttl_override_secs, issuer.refresh_ttl));
    match issuer.issue_refresh_for(user_id, token_ttl) {
        Err(e) => Err(
            ApiError::Internal(api_error::prefixed("issue refresh: ", e.message().as_str())),
        ),
        Ok((refresh, jti, expires_at)) => {
            let ghost at = choose|now: i64|
                clock::EARLIEST_MS <= now <= clock::LATEST_MS && refresh@
                    == #[trigger] issuer.refresh_token(user_id, jti, token_ttl, now) && expires_at
                    == now + token_ttl * 1000;
            let s = session_of(
                auth,
                access,
                (refresh, jti, expires_at),
                refresh_ttl_override_secs,
                secure,
            );
            assert(s.refresh.value@ == issuer.refresh_token(
                user_id,
                s.jti,
                override_or(refresh_ttl_override_secs, issuer.refresh_ttl),
                at,
            ));
            Ok(s)
        },
    }
}

/// Token, stored row and cookie of a session agree on when it ends: as long
/// after the token was issued as the cookie lasts.
pub proof fn session_ends_agree(
    s: Session,
    issuer: Issuer,
    auth: AuthConfig,
    user: UserId,
    admin: bool,
    ttl_override: Option<i64>,
    secure: bool,
) -> (now: i64)
    requires
        is_session(s, issuer, auth, user, admin, ttl_override, secure),
        issuer.refresh_ttl == auth.refresh_ttl_secs,
    ensures
        s.refresh.value@ == jwt::signed_token(
            jwt::refresh_model(
                user.0,
                s.jti,
                (clock::whole_seconds(now) + s.refresh.max_age_secs) as i64,
                clock::whole_seconds(now) as i64,
                issuer.issuer@,
            ),
            issuer.secret@,
        ),
        s.expires_at == now + s.refresh.max_age_secs * 1000,
{
    choose|now: i64|
        clock::EARLIEST_MS <= now <= clock::LATEST_MS && s.refresh.value@
            == #[trigger] issuer.refresh_token(
            user,
            s.jti,
            override_or(ttl_override, issuer.refresh_ttl),
            now,
        ) && s.expires_at == now + override_or(ttl_override, issuer.refresh_ttl) * 1000
}

// ---------------------------------------------------------------------------
// Laws
// ---------------------------------------------------------------------------

/// A password of eight characters is long enough and an address with an at
/// sign and three characters is one: the account is stored under the address
/// as it is looked up. The password is looked at first.
pub proof fn registration_is_checked(
    req: &RegisterRequest,
    email: &str,
    normal: String,
    r: Result<String, ApiError>,
)
    requires
        email@ == req.email@,
        call_ensures(normalize_email, (email,), normal),
        call_ensures(check_registration, (req,), r),
    ensures
        r is Ok ==> r->Ok_0@ == normal@ && normal@.contains('@'),
        r is Err ==> r->Err_0@ is BadRequest,
        req.password@.len() >= 8 && normal@.len() >= 3 && normal@.contains('@') ==> r is Ok,
        req.password@.len() < 8 && (forall|i: int|
            0 <= i < req.password@.len() ==> (#[trigger] req.password@[i] as u32) < 128)
            ==> r is Err && r->Err_0@->BadRequest_0 == "password too short (min 8)"@,
        req.password@.len() >= 8 && !normal@.contains('@') ==> r is Err
            && r->Err_0@->BadRequest_0 == "invalid email"@,
        normal@.len() < 3 && (forall|i: int|
            0 <= i < normal@.len() ==> (#[trigger] normal@[i] as u32) < 128) ==> r is Err,
{
    text::characters_take_bytes(req.password@);
    text::characters_take_bytes(normal@);
}

/// An address is looked up without the white space around it, and whatever the
/// case of its letters.
pub proof fn address_is_looked_up_trimmed(
    a: &str,
    b: &str,
    ta: String,
    tb: String,
    ra: String,
    rb: String,
)
    requires
        call_ensures(text::trim, (a,), ta),
        call_ensures(text::trim, (b,), tb),
        call_ensures(normalize_email, (a,), ra),
        call_ensures(normalize_email, (b,), rb),
    ensures
        ra@.len() == ta@.len(),
        ta@ == tb@ ==> ra@ == rb@,
        forall|i: int| 0 <= i < ra@.len() ==> !('A' <= #[trigger] ra@[i] <= 'Z'),
        forall|i: int|
            0 <= i < ra@.len() && !('A' <= #[trigger] ta@[i] <= 'Z') ==> ra@[i] == ta@[i],
        forall|i: int|
            0 <= i < ra@.len() && ('A' <= #[trigger] ta@[i] <= 'Z') ==> ra@[i] as int == ta@[i] as int
                + 32,
{
}

/// What is stored of a new account is the address, the invitation and the
/// hash; a hash that failed stores nothing.
pub proof fn account_is_stored_as_given(
    email: String,
    invite_hash: String,
    hash: Result<String, ApiError>,
    r: Result<NewAccount, ApiError>,
)
    requires
        call_ensures(new_account, (email, invite_hash, hash), r),
    ensures
        r is Ok <==> hash is Ok,
        r is Ok ==> r->Ok_0.email == email && r->Ok_0.invite_hash == invite_hash
            && r->Ok_0.password_hash == hash->Ok_0,
        r is Err ==> r->Err_0 == hash->Err_0,
{
}

/// Who registers can sign in with the same password and, short of a match, with
/// no other; the invitation is looked up by what is stored of its token.
pub proof fn registered_user_signs_in(
    req: &RegisterRequest,
    a: Result<NewAccount, ApiError>,
    password: &str,
    token: &str,
    invite: String,
    stored: &str,
    nobodys: &str,
    r: Result<(), ApiError>,
)
    requires
        call_ensures(register, (req,), a),
        a is Ok,
        password@ == req.password@,
        token@ == req.invite_token@,
        stored@ == a->Ok_0.password_hash@,
        call_ensures(invitation::hash_invitation_token, (token,), invite),
        call_ensures(login, (password, Some(stored), nobodys), r),
    ensures
        r is Ok,
        a->Ok_0.invite_hash@ == invite@,
{
}

/// A password lets a user in exactly where it matches what is stored; nobody
/// gets in under an address that nobody registered, and the stranger learns no
/// more than who mistyped.
pub proof fn only_the_password_lets_in(
    password: &str,
    stored: Option<&str>,
    nobodys: &str,
    v: Result<bool, password::PasswordError>,
    r: Result<(), ApiError>,
)
    requires
        stored is Some ==> call_ensures(password::verify_password, (password, stored->0), v),
        call_ensures(login, (password, stored, nobodys), r),
    ensures
        r is Ok <==> stored is Some && v == Ok::<bool, password::PasswordError>(true),
        stored is None ==> r is Err && r->Err_0@ is Unauthorized,
        stored is Some && v == Ok::<bool, password::PasswordError>(false) ==> r is Err
            && r->Err_0@ is Unauthorized,
        stored is Some && v is Err ==> r is Err && r->Err_0@ is Internal,
{
}

/// An invitation has to be there and unused, and an address free.
pub proof fn registration_takes_what_is_free(
    found: Option<u128>,
    flag: bool,
    invitation: Result<u128, ApiError>,
    email: Result<(), ApiError>,
    consumed: Result<(), ApiError>,
)
    requires
        call_ensures(active_invitation, (found,), invitation),
        call_ensures(free_email, (flag,), email),
        call_ensures(consumed_invitation, (flag,), consumed),
    ensures
        invitation is Ok <==> found is Some,
        invitation is Ok ==> invitation->Ok_0 == found->0,
        invitation is Err ==> invitation->Err_0@ is BadRequest,
        email is Ok <==> !flag,
        email is Err ==> email->Err_0@ is Conflict,
        consumed is Ok <==> flag,
        consumed is Err ==> consumed->Err_0@ is Conflict,
{
}

/// A user is shown as they are, and a session needs one.
pub proof fn user_is_shown_as_is(user: User, shown: UserResponse, u: Option<User>, r: Result<User, ApiError>)
    requires
        call_ensures(user_response, (user,), shown),
        call_ensures(session_user, (u,), r),
    ensures
        shown.id == user.id.0 && shown.email == user.email && shown.display_name
            == user.display_name && shown.is_admin == user.is_admin,
        r is Ok <==> u is Some,
        r is Ok ==> r->Ok_0 == u->0,
        r is Err ==> r->Err_0@ is Unauthorized,
{
}

/// An active token is rotated for its device. One that is not is looked for
/// among those of the last minute, and is refused where it is not there.
pub proof fn token_is_rotated_for_its_device(
    active: Option<DeviceInfo>,
    rotated: Option<DeviceInfo>,
    step: RefreshStep,
    r: Result<DeviceInfo, ApiError>,
)
    requires
        call_ensures(refresh, (active,), step),
        call_ensures(refresh_straggler, (rotated,), r),
    ensures
        step is Rotate <==> active is Some,
        step is Rotate ==> step->Rotate_0 == active->0,
        step is LookUpRotated ==> step->LookUpRotated_0 == 60,
        r is Ok <==> rotated is Some,
        r is Ok ==> r->Ok_0 == rotated->0,
        r is Err ==> r->Err_0@ is Unauthorized,
{
}

/// The session of a device, and no other, lasts as long as those of devices
/// do.
pub proof fn devices_stay_longer(device: &DeviceInfo, auth: &AuthConfig, r: Option<i64>)
    requires
        call_ensures(refresh_ttl_override, (device, auth), r),
    ensures
        r is Some <==> device.device_kind is Some,
        r is Some ==> r->0 == auth.device_refresh_ttl_secs,
{
}

/// What is revoked is the token that was verified.
pub proof fn verified_token_is_revoked(
    verified: Option<Result<RefreshClaims, JwtError>>,
    r: Option<u128>,
)
    requires
        call_ensures(token_to_revoke, (verified,), r),
    ensures
        r is Some <==> verified is Some && verified->0 is Ok,
        r is Some ==> r->0 == verified->0->Ok_0.jti,
{
}

/// The cookies of a session hold its tokens; ending it clears the very cookies
/// that it set. No script sees them, no other site sends them, and only the
/// refresh token follows the lifetime of a device.
pub proof fn session_is_in_its_cookies(
    auth: &AuthConfig,
    access: String,
    refresh: (String, u128, i64),
    ttl: Option<i64>,
    secure: bool,
    s: Session,
    cleared: Vec<(String, String)>,
)
    requires
        call_ensures(session_of, (auth, access, refresh, ttl, secure), s),
        call_ensures(cleared_cookies, (), cleared),
    ensures
        s.access.value@ == access@ && s.refresh.value@ == refresh.0@,
        s.jti == refresh.1 && s.expires_at == refresh.2,
        s.access.max_age_secs == auth.access_ttl_secs,
        ttl is Some ==> s.refresh.max_age_secs == ttl->0,
        ttl is None ==> s.refresh.max_age_secs == auth.refresh_ttl_secs,
        s.access.secure == secure && s.refresh.secure == secure,
        s.access.http_only && s.refresh.http_only,
        s.access.same_site_lax && s.refresh.same_site_lax,
        s.access.name@ == "iris_access"@ && s.refresh.name@ == "iris_refresh"@,
        s.access.path@ == seq!['/'],
        s.refresh.path@ == "/api/auth"@,
        cleared@.len() == 2,
        cleared@[0].0@ == s.access.name@ && cleared@[0].1@ == s.access.path@,
        cleared@[1].0@ == s.refresh.name@ && cleared@[1].1@ == s.refresh.path@,
{
    reveal_strlit("/");
    assert("/"@ =~= seq!['/']);
}

/// Whoever is signed in again, and whatever is revoked, is what the session's
/// refresh cookie was issued for.
pub proof fn session_ends_with_its_own_token(
    issuer: &Issuer,
    auth: &AuthConfig,
    user: UserId,
    admin: bool,
    ttl: Option<i64>,
    secure: bool,
    s: Result<Session, ApiError>,
    cookie: &str,
    revoked: Option<u128>,
    again: Result<RefreshClaims, ApiError>,
)
    requires
        call_ensures(issue_session_for_kind, (issuer, auth, user, admin, ttl, secure), s),
        jwt::is_ttl(override_or(ttl, issuer.refresh_ttl)),
        s is Ok && s->Ok_0.expires_at >= 0,
        cookie@ == s->Ok_0.refresh.value@,
        call_ensures(logout, (issuer, Some(cookie)), revoked),
        call_ensures(refresh_claims, (issuer, Some(cookie)), again),
    ensures
        revoked is Some ==> revoked->0 == s->Ok_0.jti,
        again is Ok ==> again->Ok_0.sub == user.0 && again->Ok_0.jti == s->Ok_0.jti,
        again is Err ==> again->Err_0@ is Unauthorized,
{
    let t = override_or(ttl, issuer.refresh_ttl);
    let now = choose|now: i64|
        clock::EARLIEST_MS <= now <= clock::LATEST_MS && s->Ok_0.refresh.value@
            == #[trigger] issuer.refresh_token(user, s->Ok_0.jti, t, now) && s->Ok_0.expires_at
            == now + t * 1000;
    assert(clock::whole_seconds(now) + t >= 0);
}

/// A session of a user who signs in lasts as configured: it is one without a
/// lifetime of its own.
pub proof fn signing_in_lasts_as_configured(
    issuer: &Issuer,
    auth: &AuthConfig,
    user: UserId,
    admin: bool,
    secure: bool,
    s: Result<Session, ApiError>,
)
    requires
        jwt::is_ttl(issuer.access_ttl),
        jwt::is_ttl(issuer.refresh_ttl),
        call_ensures(issue_session, (issuer, auth, user, admin, secure), s),
    ensures
        s is Ok,
        s->Ok_0.access.max_age_secs == auth.access_ttl_secs,
        s->Ok_0.refresh.max_age_secs == auth.refresh_ttl_secs,
        s->Ok_0.access.secure == secure && s->Ok_0.refresh.secure == secure,
        s->Ok_0.access.http_only && s->Ok_0.refresh.http_only,
        s->Ok_0.access.name@ == "iris_access"@ && s->Ok_0.refresh.name@ == "iris_refresh"@,
{
}

/// Nobody registers without passing the check: the address that it gives is
/// the one that is stored, and what it refuses is refused for the same reason.
pub proof fn nobody_registers_unchecked(
    req: &RegisterRequest,
    checked: Result<String, ApiError>,
    r: Result<NewAccount, ApiError>,
)
    requires
        call_ensures(check_registration, (req,), checked),
        call_ensures(register, (req,), r),
    ensures
        r is Ok ==> checked is Ok && r->Ok_0.email@ == checked->Ok_0@,
        checked is Err ==> r is Err && r->Err_0@ == checked->Err_0@,
        checked is Ok && r is Err ==> r->Err_0@ is Internal,
{
}

} // verus!
