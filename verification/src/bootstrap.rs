//! What the service starts with.

use vstd::prelude::*;

use crate::config::{AppConfig, AuthConfig};
use crate::jwt::Issuer;
use crate::password;

verus! {

/// A user to create.
#[derive(Debug)]
pub struct NewUser {
    pub email: String,
    pub password_hash: String,
    pub is_admin: bool,
}

/// The administrator to create, by what hashing the password gave.
pub fn first_admin(email: String, hashed: Result<String, password::PasswordError>) -> (r: Result<
    Option<NewUser>,
    String,
>)
    ensures
        match hashed {
            Ok(h) => r == Ok::<Option<NewUser>, String>(
                Some((NewUser { email, password_hash: h, is_admin: true })),
            ),
            Err(p) => r matches Err(m) && m@ == "hash admin password: argon2 error: "@
                + p->Argon2_0@,
        },
{
    match hashed {
        Ok(h) => Ok(Some(NewUser { email, password_hash: h, is_admin: true })),
        Err(e) => {
            let m = crate::api_error::prefixed("hash admin password: ", e.message().as_str());
            proof {
                let password::PasswordError::Argon2(t) = e;
                reveal_strlit("hash admin password: ");
                reveal_strlit("argon2 error: ");
                reveal_strlit("hash admin password: argon2 error: ");
                assert("hash admin password: argon2 error: "@
                    =~= "hash admin password: "@ + "argon2 error: "@);
                assert(m@ =~= "hash admin password: argon2 error: "@ + t@);
            }
            Err(m)
        },
    }
}

/// The administrator to create when the service starts: the configured one,
/// while there are no users, as [`first_admin`] makes it of the hash of the
/// password. It is created once, since it is a user itself.
pub fn bootstrap_admin_if_configured(auth: &AuthConfig, users: i64) -> (r: Result<
    Option<NewUser>,
    String,
>)
    ensures
        match auth.bootstrap_admin {
            None => r == Ok::<Option<NewUser>, String>(None),
            Some(a) => if users > 0 {
                r == Ok::<Option<NewUser>, String>(None)
            } else {
                match r {
                    Ok(u) => {
                        &&& u is Some
                        &&& u->0.email == a.email
                        &&& u->0.is_admin
                        &&& password::is_hash_of(a.password@, u->0.password_hash@)
                    },
                    Err(m) => password::is_hash_fault(
                        "hash admin password: argon2 error: "@,
                        a.password@,
                        m@,
                    ),
                }
            },
        },
{
    match &auth.bootstrap_admin {
        None => Ok(None),
        Some(a) => {
            if users > 0 {
                return Ok(None);
            }
            first_admin(a.email.clone(), password::hash_password(a.password.as_str()))
        },
    }
}

/// What makes and checks tokens, as configured: it issues them in the name of
/// the public address.
pub fn issuer_for(cfg: &AppConfig) -> (r: Issuer)
    ensures
        r.secret@ == cfg.auth.jwt_secret@,
        r.issuer@ == cfg.server.public_url@,
        r.access_ttl == cfg.auth.access_ttl_secs,
        r.refresh_ttl == cfg.auth.refresh_ttl_secs,
{
    Issuer::new(
        cfg.auth.jwt_secret.as_str(),
        cfg.server.public_url.clone(),
        cfg.auth.access_ttl_secs,
        cfg.auth.refresh_ttl_secs,
    )
}

// ---------------------------------------------------------------------------
// Laws
// ---------------------------------------------------------------------------

/// The first administrator is the configured one, and there is one only while
/// nobody else is there.
pub proof fn first_user_is_the_configured_one(
    auth: &AuthConfig,
    users: i64,
    r: Result<Option<NewUser>, String>,
)
    requires
        call_ensures(bootstrap_admin_if_configured, (auth, users), r),
    ensures
        users > 0 || auth.bootstrap_admin is None ==> r is Ok && r->Ok_0 is None,
        users <= 0 && auth.bootstrap_admin is Some && r is Ok ==> r->Ok_0 is Some,
        r is Ok && r->Ok_0 is Some ==> users <= 0 && auth.bootstrap_admin is Some,
        r is Ok && r->Ok_0 is Some ==> r->Ok_0->0.is_admin && r->Ok_0->0.email
            == auth.bootstrap_admin->0.email,
{
}

/// The configured password lets the first administrator in.
pub proof fn configured_password_lets_in(
    auth: &AuthConfig,
    users: i64,
    r: Result<Option<NewUser>, String>,
    password: &str,
    hash: &str,
    v: Result<bool, password::PasswordError>,
)
    requires
        call_ensures(bootstrap_admin_if_configured, (auth, users), r),
        r is Ok && r->Ok_0 is Some,
        password@ == auth.bootstrap_admin->0.password@,
        hash@ == r->Ok_0->0.password_hash@,
        call_ensures(password::verify_password, (password, hash), v),
    ensures
        v == Ok::<bool, password::PasswordError>(true),
{
}

/// What is created is an administrator with the address and the hash; without a
/// hash nobody is.
pub proof fn first_admin_is_as_hashed(
    email: String,
    hashed: Result<String, password::PasswordError>,
    r: Result<Option<NewUser>, String>,
)
    requires
        call_ensures(first_admin, (email, hashed), r),
    ensures
        r is Ok <==> hashed is Ok,
        r is Ok ==> r->Ok_0 is Some && r->Ok_0->0.email == email && r->Ok_0->0.password_hash
            == hashed->Ok_0 && r->Ok_0->0.is_admin,
{
}

/// Tokens are issued in the name of the public address, with the configured
/// secret and lifetimes.
pub proof fn tokens_are_issued_as_configured(cfg: &AppConfig, r: Issuer)
    requires
        call_ensures(issuer_for, (cfg,), r),
    ensures
        r.secret@ == cfg.auth.jwt_secret@ && r.issuer@ == cfg.server.public_url@,
        r.access_ttl == cfg.auth.access_ttl_secs && r.refresh_ttl == cfg.auth.refresh_ttl_secs,
{
}

} // verus!
