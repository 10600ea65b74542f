//! Who makes a request.

use vstd::prelude::*;

use crate::api_error::{ApiError, Failure};
use crate::jwt;
use crate::jwt::{AccessClaims, Issuer, JwtError};
use crate::streaming;
use crate::text;
use crate::user::UserId;

verus! {

/// Name of the cookie that holds the access token.
pub const ACCESS_COOKIE: &'static str = "iris_access";

/// Name of the cookie that holds the refresh token.
pub const REFRESH_COOKIE: &'static str = "iris_refresh";

/// A user who is signed in.
#[derive(Debug, Clone)]
pub struct AuthUser {
    pub id: UserId,
    pub is_admin: bool,
    pub claims: AccessClaims,
}

/// An administrator who is signed in.
#[derive(Debug, Clone)]
pub struct AdminUser(pub AuthUser);

/// The token of an `Authorization` header: what follows `Bearer `.
pub open spec fn bearer(header: Option<Seq<u8>>) -> Option<Seq<char>> {
    match header {
        Some(h) => match streaming::header_text(h) {
            Some(s) => if "Bearer "@.is_prefix_of(s) {
                Some(s.skip("Bearer "@.len() as int))
            } else {
                None
            },
            None => None,
        },
        None => None,
    }
}

/// The token of a request: that of the header, else that of the cookie.
pub open spec fn presented(header: Option<Seq<u8>>, cookie: Option<Seq<char>>) -> Option<
    Seq<char>,
> {
    match bearer(header) {
        Some(t) => Some(t),
        None => cookie,
    }
}

pub open spec fn bytes_view(header: Option<&Vec<u8>>) -> Option<Seq<u8>> {
    match header {
        Some(h) => Some(h@),
        None => None,
    }
}

/// The token of a request.
pub fn access_token(header: Option<&Vec<u8>>, cookie: Option<&str>) -> (r: Option<String>)
    ensures
        text::opt_view(r) == presented(bytes_view(header), text::opt_str_view(cookie)),
{
    match header {
        Some(h) => match streaming::visible_text(h) {
            Some(s) => match text::strip_prefix(s.as_str(), "Bearer ") {
                Some(t) => return Some(t),
                None => {},
            },
            None => {},
        },
        None => {},
    }
    match cookie {
        Some(c) => Some(c.to_string()),
        None => None,
    }
}

/// The user whom claims are about; whatever is wrong with a token, its bearer
/// is not signed in.
pub fn auth_user(claims: Result<AccessClaims, JwtError>) -> (r: Result<AuthUser, ApiError>)
    ensures
        match claims {
            Ok(c) => r == Ok::<AuthUser, ApiError>(
                (AuthUser { id: UserId(c.sub), is_admin: c.admin, claims: c }),
            ),
            Err(_) => r matches Err(e) && e@ == Failure::Unauthorized,
        },
{
    match claims {
        Ok(c) => Ok(AuthUser { id: UserId(c.sub), is_admin: c.admin, claims: c }),
        Err(_) => Err(ApiError::Unauthorized),
    }
}

/// Who makes a request, by its `Authorization` header and its access cookie.
/// The bearer of a token that this service issued is the user it was issued
/// for, unless it has expired.
pub fn authenticate(issuer: &Issuer, header: Option<&Vec<u8>>, cookie: Option<&str>) -> (r: Result<
    AuthUser,
    ApiError,
>)
    ensures
        r matches Err(e) ==> e@ == Failure::Unauthorized,
        match presented(bytes_view(header), text::opt_str_view(cookie)) {
            None => r is Err,
            Some(t) => {
                &&& r matches Ok(u) ==> {
                    &&& jwt::token_claims(t, issuer.secret@, Some(issuer.issuer@)) matches Some(c)
                        && jwt::is_access(u.claims, c)
                    &&& u.claims.kind is Access
                    &&& u.claims.iss@ == issuer.issuer@
                    &&& u.id == UserId(u.claims.sub)
                    &&& u.is_admin == u.claims.admin
                }
                &&& forall|sub: u128, admin: bool, exp: i64, iat: i64|
                    t == (#[trigger] jwt::signed_token(
                        jwt::access_model(sub, admin, exp, iat, issuer.issuer@),
                        issuer.secret@,
                    )) && exp >= 0 && r is Ok ==> r->Ok_0.id == UserId(sub) && r->Ok_0.is_admin
                        == admin
                &&& forall|sub: u128, jti: u128, exp: i64, iat: i64|
                    t == (#[trigger] jwt::signed_token(
                        jwt::refresh_model(sub, jti, exp, iat, issuer.issuer@),
                        issuer.secret@,
                    )) && exp >= 0 ==> r is Err
            },
        },
{
    match access_token(header, cookie) {
        None => Err(ApiError::Unauthorized),
        Some(t) => auth_user(issuer.verify_access(t.as_str())),
    }
}

/// A user who has to be an administrator.
pub fn admin_user(user: AuthUser) -> (r: Result<AdminUser, ApiError>)
    ensures
        if user.is_admin {
            r == Ok::<AdminUser, ApiError>(AdminUser(user))
        } else {
            r matches Err(e) && e@ == Failure::Forbidden
        },
{
    if !user.is_admin {
        return Err(ApiError::Forbidden);
    }
    Ok(AdminUser(user))
}

// ---------------------------------------------------------------------------
// Laws
// ---------------------------------------------------------------------------

/// The token of a header is what stands behind the word and the space, and it
/// comes before that of the cookie; a header of any other kind leaves the
/// cookie to tell.
pub proof fn header_comes_before_the_cookie(
    header: Option<&Vec<u8>>,
    cookie: Option<&str>,
    r: Option<String>,
)
    requires
        call_ensures(access_token, (header, cookie), r),
    ensures
        header is None ==> (r is Some <==> cookie is Some) && (r is Some ==> r->0@ == cookie->0@),
        header is Some && header->0@.len() < 7 ==> (r is Some <==> cookie is Some) && (r is Some
            ==> r->0@ == cookie->0@),
        header is Some && header->0@.len() >= 7 && header->0@.take(7) != seq![
            66u8,
            101,
            97,
            114,
            101,
            114,
            32,
        ] ==> (r is Some <==> cookie is Some) && (r is Some ==> r->0@ == cookie->0@),
        header is Some && header->0@.len() >= 7 && header->0@.take(7) == seq![
            66u8,
            101,
            97,
            114,
            101,
            114,
            32,
        ] && (forall|i: int| 0 <= i < header->0@.len() ==> 32 <= #[trigger] header->0@[i] < 127)
            ==> r is Some && r->0@.len() == header->0@.len() - 7 && forall|i: int|
            0 <= i < r->0@.len() ==> (#[trigger] r->0@[i]) as u32 == header->0@[i + 7],
{
    reveal_strlit("Bearer ");
    let w = "Bearer "@;
    assert(w =~= seq!['B', 'e', 'a', 'r', 'e', 'r', ' ']);
    if header is Some {
        let h = header->0@;
        let k = seq![66u8, 101, 97, 114, 101, 114, 32];
        if streaming::header_text(h) is Some {
            let s = streaming::header_text(h)->0;
            if w.is_prefix_of(s) {
                assert(h.len() >= 7);
                assert(s.take(7) =~= w);
                assert forall|i: int| 0 <= i < 7 implies #[trigger] h.take(7)[i] == k[i] by {
                    assert(s[i] == w[i]);
                    assert(s[i] as u32 == h[i]);
                }
                assert(h.take(7) =~= k);
                assert forall|i: int| 0 <= i < s.skip(7).len() implies (#[trigger] s.skip(7)[i]) as u32
                    == h[i + 7] by {
                    assert(s[i + 7] as u32 == h[i + 7]);
                }
            } else if h.len() >= 7 && h.take(7) == k {
                assert forall|i: int| 0 <= i < 7 implies #[trigger] s.take(7)[i] == w[i] by {
                    assert(h.take(7)[i] == k[i]);
                    assert(s[i] as u32 == h[i]);
                }
                assert(s.take(7) =~= w);
                assert(w.is_prefix_of(s));
            }
        } else if (forall|i: int| 0 <= i < h.len() ==> 32 <= #[trigger] h[i] < 127) {
            assert forall|i: int| 0 <= i < h.len() implies streaming::is_visible(#[trigger] h[i]) by {
                assert(32 <= h[i] < 127);
            }
        }
    }
}

/// The bearer of valid claims is whom they are about, with the rights that they
/// grant; nobody else is signed in, and nobody but an administrator is one.
pub proof fn claims_tell_who_it_is(
    claims: Result<AccessClaims, JwtError>,
    r: Result<AuthUser, ApiError>,
    user: AuthUser,
    admin: Result<AdminUser, ApiError>,
)
    requires
        call_ensures(auth_user, (claims,), r),
        call_ensures(admin_user, (user,), admin),
    ensures
        r is Ok <==> claims is Ok,
        r is Ok ==> r->Ok_0.id.0 == claims->Ok_0.sub && r->Ok_0.is_admin == claims->Ok_0.admin
            && r->Ok_0.claims == claims->Ok_0,
        r is Err ==> r->Err_0@ is Unauthorized,
        admin is Ok <==> user.is_admin,
        admin is Ok ==> admin->Ok_0.0 == user,
        admin is Err ==> admin->Err_0@ is Forbidden,
{
}

/// Nobody is signed in without a token, nor by a token that was issued to sign
/// in again. By a token that was issued for access, nobody but its user is.
pub proof fn request_is_made_by_the_tokens_user(
    issuer: &Issuer,
    user: UserId,
    admin: bool,
    jti: u128,
    ttl: i64,
    now: i64,
    access: Result<String, JwtError>,
    refresh: Result<String, JwtError>,
    a: &str,
    b: &str,
    by_access: Result<AuthUser, ApiError>,
    by_refresh: Result<AuthUser, ApiError>,
    by_nothing: Result<AuthUser, ApiError>,
)
    requires
        0 <= now <= crate::clock::LATEST_MS,
        0 <= issuer.access_ttl <= crate::clock::LONGEST_SECS,
        0 <= ttl <= crate::clock::LONGEST_SECS,
        call_ensures(Issuer::access_token_at, (issuer, user, admin, now), access),
        call_ensures(Issuer::refresh_token_at, (issuer, user, jti, ttl, now), refresh),
        a@ == access->Ok_0@,
        b@ == refresh->Ok_0@,
        call_ensures(authenticate, (issuer, None::<&Vec<u8>>, Some(a)), by_access),
        call_ensures(authenticate, (issuer, None::<&Vec<u8>>, Some(b)), by_refresh),
        call_ensures(authenticate, (issuer, None::<&Vec<u8>>, None::<&str>), by_nothing),
    ensures
        by_access is Ok ==> by_access->Ok_0.id == user && by_access->Ok_0.is_admin == admin,
        by_access is Err ==> by_access->Err_0@ is Unauthorized,
        by_refresh is Err && by_refresh->Err_0@ is Unauthorized,
        by_nothing is Err && by_nothing->Err_0@ is Unauthorized,
{
}

} // verus!
