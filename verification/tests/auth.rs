use iris::api_error::ApiError;
use iris::auth::{
    active_invitation, check_registration, cleared_cookies, consumed_invitation, free_email,
    issue_session, issue_session_for_kind, login, logout, new_account, normalize_email, refresh,
    refresh_claims, refresh_straggler, refresh_ttl_override, register, session_of, session_user,
    token_to_revoke, user_response, DeviceInfo, RefreshStep, RegisterRequest,
};
use iris::bootstrap::{bootstrap_admin_if_configured, first_admin};
use iris::config::{AuthConfig, BootstrapAdmin};
use iris::extract::{access_token, admin_user, authenticate, ACCESS_COOKIE, REFRESH_COOKIE};
use iris::invitation::{hash_invitation_token, new_invitation_token, token_from};
use iris::jwt::{
    access_outcome, refresh_outcome, ttl_fits, ClaimValue, Issuer, JwtError, RefreshClaims,
    TokenKind,
};
use iris::password::{hash_outcome, hash_password, verify_password, PasswordError};
use iris::user::{Role, User, UserId};

#[test]
fn round_trip() {
    let h = hash_password("hunter2").unwrap();
    assert!(verify_password("hunter2", &h).unwrap());
    assert!(!verify_password("nope", &h).unwrap());
}

#[test]
fn phc_layout_unchanged_across_argon2_bump() {
    // Stored hashes were written by argon2 0.5 with exactly these
    // parameters; they keep verifying only as long as 0.6 emits and reads
    // the same PHC layout. A fixed pre-bump-shaped string goes through the
    // same parse + verify path as a fresh one.
    let fresh = hash_password("hunter2").unwrap();
    assert!(fresh.starts_with("$argon2id$v=19$m=19456,t=2,p=1$"));
    let stored = "$argon2id$v=19$m=19456,t=2,p=1$c29tZXNhbHRzb21lc2FsdA$\
                  K5c9m8TF3mR1n6cJ3qB4pF0Yw8hZ6tQ1uV2xW3yZ4aA";
    assert!(!verify_password("nope", stored).unwrap());
    // A corrupt stored hash is an error, not a silent "wrong password".
    assert!(verify_password("nope", "not-a-phc-string").is_err());
}

#[test]
fn two_hashes_of_one_password_differ() {
    assert_ne!(hash_password("hunter2").unwrap(), hash_password("hunter2").unwrap());
}

#[test]
fn password_error_tells_its_source() {
    assert_eq!(PasswordError::Argon2("x".to_string()).message(), "argon2 error: x");
}

#[test]
fn deterministic_hash() {
    let a = hash_invitation_token("foo");
    let b = hash_invitation_token("foo");
    assert_eq!(a, b);
}

#[test]
fn unique_tokens() {
    let a = new_invitation_token();
    let b = new_invitation_token();
    assert_ne!(a.plaintext, b.plaintext);
}

#[test]
fn invitation_hash_is_sha256_in_base64() {
    // SHA-256 of "foo".
    assert_eq!(hash_invitation_token("foo"), "LCa0a2j_xo_5m0U8HTBBNBNCLXBkg7-g-YpeiGJm564");
    assert_eq!(hash_invitation_token(""), "47DEQpj8HBSa-_TImW-5JCeuQeRkm5NMpJWZG3hSuFU");
}

#[test]
fn invitation_stores_the_hash_of_its_token() {
    let t = new_invitation_token();
    assert_eq!(t.plaintext.len(), 43);
    assert!(t.plaintext.chars().all(|c| c.is_ascii_alphanumeric() || c == '-' || c == '_'));
    assert_eq!(t.hash, hash_invitation_token(&t.plaintext));
}

fn issuer() -> Issuer {
    Issuer::new("secret", "https://iris.example".to_string(), 900, 3600)
}

fn now_secs() -> i64 {
    std::time::SystemTime::now()
        .duration_since(std::time::UNIX_EPOCH)
        .unwrap()
        .as_secs() as i64
}

#[test]
fn access_token_gives_back_its_user() {
    let i = issuer();
    let t = i.issue_access(UserId(7), true).unwrap();
    let c = i.verify_access(&t).unwrap();
    assert_eq!((c.sub, c.admin, c.kind), (7, true, TokenKind::Access));
    assert_eq!(c.exp - c.iat, 900);
    assert!((now_secs() - c.iat).abs() <= 5);
    assert_eq!(c.iss, "https://iris.example");
}

#[test]
fn refresh_token_gives_back_its_identifier() {
    let i = issuer();
    let (t, jti, exp) = i.issue_refresh(UserId(u128::MAX)).unwrap();
    let c = i.verify_refresh(&t).unwrap();
    assert_eq!((c.sub, c.jti, c.kind), (u128::MAX, jti, TokenKind::Refresh));
    assert_eq!(c.exp, exp.div_euclid(1000));
    assert_eq!(c.exp - c.iat, 3600);
    assert_eq!((jti >> 76) & 0xf, 4);
    assert_eq!((jti >> 62) & 0x3, 2);
}

#[test]
fn refresh_token_may_last_longer() {
    let i = issuer();
    let (t, _, _) = i.issue_refresh_for(UserId(1), 100_000).unwrap();
    let c = i.verify_refresh(&t).unwrap();
    assert_eq!(c.exp - c.iat, 100_000);
}

#[test]
fn tokens_of_one_kind_are_not_of_the_other() {
    let i = issuer();
    let access = i.issue_access(UserId(7), false).unwrap();
    let (refresh, _, _) = i.issue_refresh(UserId(7)).unwrap();
    assert!(matches!(i.verify_refresh(&access), Err(JwtError::Encode(_))));
    assert!(matches!(i.verify_access(&refresh), Err(JwtError::Encode(_))));
}

fn hand_made(claims: &[(&str, serde_json::Value)], secret: &str) -> String {
    let mut m = serde_json::Map::new();
    for (k, v) in claims {
        m.insert(k.to_string(), v.clone());
    }
    jsonwebtoken::encode(
        &jsonwebtoken::Header::default(),
        &m,
        &jsonwebtoken::EncodingKey::from_secret(secret.as_bytes()),
    )
    .unwrap()
}

fn mixed_token(secret: &str, kind: &str) -> String {
    let id = "00000000-0000-0000-0000-000000000007";
    hand_made(
        &[
            ("sub", serde_json::Value::from(id)),
            ("kind", serde_json::Value::from(kind)),
            ("jti", serde_json::Value::from(id)),
            ("admin", serde_json::Value::from(false)),
            ("exp", serde_json::Value::from(now_secs() + 60)),
            ("iat", serde_json::Value::from(now_secs())),
            ("iss", serde_json::Value::from("https://iris.example")),
        ],
        secret,
    )
}

#[test]
fn token_with_all_claims_is_judged_by_its_kind() {
    let i = issuer();
    let t = mixed_token("secret", "refresh");
    assert_eq!(i.verify_refresh(&t).unwrap().jti, 7);
    match i.verify_access(&t) {
        Err(e @ JwtError::WrongKind { .. }) => {
            assert_eq!(e.message(), "invalid token kind: expected Access, got Refresh")
        }
        other => panic!("unexpected {other:?}"),
    }
    let t = mixed_token("secret", "access");
    assert_eq!(i.verify_access(&t).unwrap().sub, 7);
    assert!(matches!(
        i.verify_refresh(&t),
        Err(JwtError::WrongKind { expected: TokenKind::Refresh, got: TokenKind::Access })
    ));
    assert!(matches!(i.verify_access(&mixed_token("secret", "other")), Err(JwtError::Encode(_))));
    assert!(matches!(i.verify_access(&mixed_token("another", "access")), Err(JwtError::Encode(_))));
}

#[test]
fn expired_foreign_and_broken_tokens_are_refused() {
    let i = issuer();
    let old = Issuer::new("secret", "https://iris.example".to_string(), -3600, 3600);
    let t = old.issue_access(UserId(7), true).unwrap();
    match i.verify_access(&t) {
        Err(JwtError::Encode(m)) => assert_eq!(m, "ExpiredSignature"),
        other => panic!("unexpected {other:?}"),
    }
    let foreign = Issuer::new("secret", "https://other.example".to_string(), 900, 3600);
    let t = foreign.issue_access(UserId(7), true).unwrap();
    match i.verify_access(&t) {
        Err(e @ JwtError::Encode(_)) => assert_eq!(e.message(), "jwt error: InvalidIssuer"),
        other => panic!("unexpected {other:?}"),
    }
    assert!(i.verify_access("not a token").is_err());
    assert_eq!(JwtError::Expired.message(), "token expired");
}

#[test]
fn lifetimes_have_to_fit_into_the_calendar() {
    assert!(ttl_fits(0) && ttl_fits(31_536_000) && ttl_fits(-60));
    assert!(!ttl_fits(i64::MAX) && !ttl_fits(i64::MIN));
}

#[test]
fn header_goes_before_cookie() {
    let bearer = b"Bearer abc".to_vec();
    let basic = b"Basic abc".to_vec();
    let binary = b"Bearer \xff".to_vec();
    assert_eq!(access_token(Some(&bearer), Some("c")).as_deref(), Some("abc"));
    assert_eq!(access_token(Some(&basic), Some("c")).as_deref(), Some("c"));
    assert_eq!(access_token(Some(&binary), Some("c")).as_deref(), Some("c"));
    assert_eq!(access_token(None, None), None);
}

#[test]
fn requests_are_made_by_the_bearer() {
    let i = issuer();
    let t = i.issue_access(UserId(9), false).unwrap();
    let user = authenticate(&i, Some(&format!("Bearer {t}").into_bytes()), None).unwrap();
    assert_eq!((user.id, user.is_admin), (UserId(9), false));
    assert!(matches!(admin_user(user), Err(ApiError::Forbidden)));
    let t = i.issue_access(UserId(9), true).unwrap();
    let user = authenticate(&i, None, Some(&t)).unwrap();
    assert_eq!(admin_user(user).unwrap().0.id, UserId(9));
    assert!(matches!(authenticate(&i, None, None), Err(ApiError::Unauthorized)));
    assert!(matches!(authenticate(&i, None, Some("x")), Err(ApiError::Unauthorized)));
}

#[test]
fn addresses_are_stored_in_one_form() {
    assert_eq!(normalize_email(" Alice@Example.com\n"), "alice@example.com");
    assert_eq!(normalize_email(&normalize_email("É@X ")), "É@x");
}

fn request(email: &str, password: &str) -> RegisterRequest {
    RegisterRequest {
        invite_token: "foo".to_string(),
        email: email.to_string(),
        password: password.to_string(),
    }
}

#[test]
fn registration_is_checked() {
    assert_eq!(check_registration(&request("A@B", "12345678")).unwrap(), "a@b");
    match check_registration(&request("a@b", "1234567")) {
        Err(ApiError::BadRequest(m)) => assert_eq!(m, "password too short (min 8)"),
        other => panic!("unexpected {other:?}"),
    }
    for bad in ["alice", "@", " a@ "] {
        match check_registration(&request(bad, "12345678")) {
            Err(ApiError::BadRequest(m)) => assert_eq!(m, "invalid email"),
            other => panic!("unexpected {other:?}"),
        }
    }
}

#[test]
fn registration_stores_hashes() {
    let a = register(&request(" A@B.c", "12345678")).unwrap();
    assert_eq!(a.email, "a@b.c");
    assert_eq!(a.invite_hash, hash_invitation_token("foo"));
    assert!(verify_password("12345678", &a.password_hash).unwrap());
    assert!(register(&request("a@b", "short")).is_err());
}

#[test]
fn registration_conflicts() {
    assert_eq!(active_invitation(Some(3)).unwrap(), 3);
    assert!(matches!(active_invitation(None), Err(ApiError::BadRequest(m)) if m == "invalid or expired invitation"));
    assert!(free_email(false).is_ok());
    assert!(matches!(free_email(true), Err(ApiError::Conflict(m)) if m == "email already registered"));
    assert!(consumed_invitation(true).is_ok());
    assert!(matches!(consumed_invitation(false), Err(ApiError::Conflict(m)) if m == "invitation already used"));
}

#[test]
fn login_needs_the_right_password() {
    let stored = hash_password("right").unwrap();
    assert!(login("right", Some(&stored), &stored).is_ok());
    assert!(matches!(login("wrong", Some(&stored), &stored), Err(ApiError::Unauthorized)));
    assert!(matches!(login("right", None, &stored), Err(ApiError::Unauthorized)));
    match login("right", Some("broken"), &stored) {
        Err(ApiError::Internal(m)) => assert!(m.starts_with("verify: argon2 error: ")),
        other => panic!("unexpected {other:?}"),
    }
}

fn auth_config() -> AuthConfig {
    AuthConfig {
        jwt_secret: "secret".to_string(),
        access_ttl_secs: 900,
        refresh_ttl_secs: 3600,
        device_refresh_ttl_secs: 7200,
        invitation_ttl_secs: 600,
        cookie_secure: None,
        bootstrap_admin: None,
    }
}

#[test]
fn session_cookies_agree_with_their_tokens() {
    let i = issuer();
    let s = issue_session(&i, &auth_config(), UserId(5), true, true).unwrap();
    assert_eq!((s.access.name.as_str(), s.access.path.as_str()), (ACCESS_COOKIE, "/"));
    assert_eq!((s.refresh.name.as_str(), s.refresh.path.as_str()), (REFRESH_COOKIE, "/api/auth"));
    assert!(s.access.secure && s.access.http_only && s.access.same_site_lax);
    assert_eq!((s.access.max_age_secs, s.refresh.max_age_secs), (900, 3600));
    assert_eq!(i.verify_access(&s.access.value).unwrap().sub, 5);
    let c = i.verify_refresh(&s.refresh.value).unwrap();
    assert_eq!((c.sub, c.jti), (5, s.jti));
    assert_eq!(c.exp, s.expires_at.div_euclid(1000));
    assert_eq!(c.exp - c.iat, s.refresh.max_age_secs);
}

#[test]
fn session_of_a_device_lasts_longer() {
    let i = issuer();
    let s = issue_session_for_kind(&i, &auth_config(), UserId(5), false, Some(7200), false).unwrap();
    assert!(!s.refresh.secure);
    assert_eq!(s.refresh.max_age_secs, 7200);
    let c = i.verify_refresh(&s.refresh.value).unwrap();
    assert_eq!(c.exp - c.iat, 7200);
}

fn device(kind: Option<&str>) -> DeviceInfo {
    DeviceInfo {
        device_label: None,
        device_kind: kind.map(str::to_string),
    }
}

#[test]
fn refresh_rotates_or_forgives_a_straggler() {
    assert!(matches!(refresh(Some(device(None))), RefreshStep::Rotate(_)));
    assert!(matches!(refresh(None), RefreshStep::LookUpRotated(60)));
    assert!(refresh_straggler(Some(device(None))).is_ok());
    assert!(matches!(refresh_straggler(None), Err(ApiError::Unauthorized)));
    assert_eq!(refresh_ttl_override(&device(Some("tv")), &auth_config()), Some(7200));
    assert_eq!(refresh_ttl_override(&device(None), &auth_config()), None);
}

#[test]
fn refresh_cookie_names_who_signs_in_again() {
    let i = issuer();
    let (t, jti, _) = i.issue_refresh(UserId(4)).unwrap();
    assert_eq!(refresh_claims(&i, Some(&t)).unwrap().sub, 4);
    assert!(matches!(refresh_claims(&i, None), Err(ApiError::Unauthorized)));
    assert!(matches!(refresh_claims(&i, Some("x")), Err(ApiError::Unauthorized)));
    assert_eq!(logout(&i, Some(&t)), Some(jti));
    assert_eq!(logout(&i, Some("x")), None);
    assert_eq!(logout(&i, None), None);
    let cleared = cleared_cookies();
    assert_eq!(cleared[0], (ACCESS_COOKIE.to_string(), "/".to_string()));
    assert_eq!(cleared[1], (REFRESH_COOKIE.to_string(), "/api/auth".to_string()));
}

#[test]
fn user_of_a_session_has_to_be_there() {
    let u = User {
        id: UserId(1),
        email: "a@b".to_string(),
        display_name: "a".to_string(),
        is_admin: true,
        created_at: 0,
    };
    assert!(matches!(session_user(None), Err(ApiError::Unauthorized)));
    let r = user_response(session_user(Some(u)).unwrap());
    assert_eq!((r.id, r.email.as_str(), r.is_admin), (1, "a@b", true));
}

#[test]
fn first_user_is_the_configured_administrator() {
    let mut cfg = auth_config();
    assert!(bootstrap_admin_if_configured(&cfg, 0).unwrap().is_none());
    cfg.bootstrap_admin = Some(BootstrapAdmin {
        email: "root@x".to_string(),
        password: "pw".to_string(),
    });
    assert!(bootstrap_admin_if_configured(&cfg, 1).unwrap().is_none());
    let u = bootstrap_admin_if_configured(&cfg, 0).unwrap().unwrap();
    assert_eq!((u.email.as_str(), u.is_admin), ("root@x", true));
    assert!(verify_password("pw", &u.password_hash).unwrap());
}

#[test]
fn role_follows_the_flag() {
    assert!(matches!(Role::from_is_admin(true), Role::Admin));
    assert!(matches!(Role::from_is_admin(false), Role::User));
}

#[test]
fn hash_outcome_keeps_hash_and_fault() {
    assert_eq!(hash_outcome(Ok("$h".to_string())).unwrap(), "$h");
    let e = hash_outcome(Err("rng failure".to_string())).unwrap_err();
    assert_eq!(e.message(), "argon2 error: rng failure");
}

#[test]
fn only_a_verified_token_is_revoked() {
    let claims = RefreshClaims {
        sub: 1,
        kind: TokenKind::Refresh,
        jti: 7,
        exp: 20,
        iat: 10,
        iss: "iris".to_string(),
    };
    assert_eq!(token_to_revoke(Some(Ok(claims))), Some(7));
    let expired = JwtError::Encode("ExpiredSignature".to_string());
    assert_eq!(token_to_revoke(Some(Err(expired))), None);
    assert_eq!(token_to_revoke(None), None);
}

#[test]
fn access_token_is_never_revoked() {
    let i = Issuer::new("0123456789abcdef", "iris".to_string(), 900, 3600);
    let t = i.issue_access(UserId(5), false).unwrap();
    assert_eq!(logout(&i, Some(&t)), None);
}

#[test]
fn account_takes_what_hashing_gave() {
    let a = new_account("a@b".to_string(), "i".to_string(), Ok("$h".to_string())).unwrap();
    assert_eq!((a.email.as_str(), a.password_hash.as_str(), a.invite_hash.as_str()), ("a@b", "$h", "i"));
    let failed = Err(ApiError::Internal("x".to_string()));
    let r = new_account("a@b".to_string(), "i".to_string(), failed);
    assert!(matches!(r, Err(ApiError::Internal(m)) if m == "x"));
}

#[test]
fn first_admin_takes_what_hashing_gave() {
    let u = first_admin("a@b".to_string(), Ok("$h".to_string())).unwrap().unwrap();
    assert_eq!((u.email.as_str(), u.password_hash.as_str(), u.is_admin), ("a@b", "$h", true));
    let fault = PasswordError::Argon2("rng failure".to_string());
    assert_eq!(
        first_admin("a@b".to_string(), Err(fault)).unwrap_err(),
        "hash admin password: argon2 error: rng failure",
    );
}

#[test]
fn token_is_made_of_its_bytes() {
    let zero = token_from(&vec![0; 32]);
    assert_eq!(zero.plaintext, "A".repeat(43));
    assert_eq!(zero.hash, hash_invitation_token(&zero.plaintext));
    let mut bytes = vec![0xff; 32];
    bytes[0] = 0;
    assert_eq!(token_from(&bytes).plaintext, format!("AP{}8", "_".repeat(40)));
}

const SUB: &str = "00000000-0000-0000-0000-000000000005";
const JTI: &str = "00000000-0000-0000-0000-000000000007";

fn claims(kind: &str) -> Vec<(String, ClaimValue)> {
    let text = |s: &str| ClaimValue::Text(s.to_string());
    vec![
        ("sub".to_string(), text(SUB)),
        ("kind".to_string(), text(kind)),
        ("admin".to_string(), ClaimValue::Flag(true)),
        ("jti".to_string(), text(JTI)),
        ("exp".to_string(), ClaimValue::Number(20)),
        ("iat".to_string(), ClaimValue::Number(10)),
        ("iss".to_string(), text("iris")),
    ]
}

fn encode_message<T>(r: Result<T, JwtError>) -> String {
    match r {
        Err(JwtError::Encode(m)) => m,
        _ => panic!("no such error"),
    }
}

fn said(m: &str) -> Option<String> {
    Some(m.to_string())
}

fn with_repeated(name: &str, kind: &str) -> Vec<(String, ClaimValue)> {
    let mut c = claims(kind);
    let again = claims(kind).into_iter().find(|(k, _)| k == name).unwrap();
    c.push(again);
    c
}

#[test]
fn decoded_access_tokens_are_judged() {
    let a = access_outcome(Ok(claims("access")), None).unwrap();
    assert_eq!((a.sub, a.admin, a.exp, a.iat, a.iss.as_str()), (5, true, 20, 10, "iris"));
    assert!(matches!(
        access_outcome(Ok(claims("refresh")), None),
        Err(JwtError::WrongKind { expected: TokenKind::Access, got: TokenKind::Refresh })
    ));
    let malformed = "JSON error: malformed claims";
    assert_eq!(encode_message(access_outcome(Ok(Vec::new()), None)), malformed);
    assert_eq!(encode_message(access_outcome(Ok(Vec::new()), said("ExpiredSignature"))), malformed);
    assert_eq!(encode_message(access_outcome(Ok(Vec::new()), said("InvalidIssuer"))), malformed);
    for name in ["sub", "kind", "admin", "exp", "iat", "iss"] {
        let r = access_outcome(Ok(with_repeated(name, "access")), None);
        assert_eq!(encode_message(r), malformed);
    }
    assert_eq!(access_outcome(Ok(with_repeated("jti", "access")), None).unwrap().sub, 5);
    let expired = access_outcome(Ok(claims("refresh")), said("ExpiredSignature"));
    assert_eq!(encode_message(expired), "ExpiredSignature");
    let foreign = access_outcome(Ok(claims("access")), said("InvalidIssuer"));
    assert_eq!(encode_message(foreign), "InvalidIssuer");
    let unsigned = access_outcome(Err("InvalidSignature".to_string()), said("InvalidSignature"));
    assert_eq!(encode_message(unsigned), "InvalidSignature");
}

#[test]
fn decoded_refresh_tokens_are_judged() {
    let a = refresh_outcome(Ok(claims("refresh")), None).unwrap();
    assert_eq!((a.sub, a.jti, a.exp, a.iat, a.iss.as_str()), (5, 7, 20, 10, "iris"));
    assert!(matches!(
        refresh_outcome(Ok(claims("access")), None),
        Err(JwtError::WrongKind { expected: TokenKind::Refresh, got: TokenKind::Access })
    ));
    let malformed = "JSON error: malformed claims";
    let other = refresh_outcome(Ok(claims("other")), said("ExpiredSignature"));
    assert_eq!(encode_message(other), malformed);
    for name in ["sub", "kind", "jti", "exp", "iat", "iss"] {
        let r = refresh_outcome(Ok(with_repeated(name, "refresh")), None);
        assert_eq!(encode_message(r), malformed);
    }
    assert_eq!(refresh_outcome(Ok(with_repeated("admin", "refresh")), None).unwrap().jti, 7);
    let expired = refresh_outcome(Ok(claims("refresh")), said("ExpiredSignature"));
    assert_eq!(encode_message(expired), "ExpiredSignature");
    let unsigned = refresh_outcome(Err("InvalidSignature".to_string()), said("InvalidSignature"));
    assert_eq!(encode_message(unsigned), "InvalidSignature");
}

fn token_of(json: String) -> String {
    jsonwebtoken::encode(
        &jsonwebtoken::Header::default(),
        &serde_json::value::RawValue::from_string(json).unwrap(),
        &jsonwebtoken::EncodingKey::from_secret(b"secret"),
    )
    .unwrap()
}

#[test]
fn repeated_claims_are_refused() {
    let i = issuer();
    let token = |more: &str| {
        let exp = now_secs() + 60;
        token_of(format!(
            r#"{{"sub":"{SUB}","kind":"access","admin":false,"exp":{exp},"iat":5,"iss":"https://iris.example"{more}}}"#
        ))
    };
    assert_eq!(i.verify_access(&token("")).unwrap().sub, 5);
    assert_eq!(i.verify_access(&token(r#","x":1,"x":{"y":[null]}"#)).unwrap().sub, 5);
    assert_eq!(i.verify_access(&token(r#","jti":1,"jti":2"#)).unwrap().sub, 5);
    for more in [r#","admin":true"#, r#","kind":"access""#, r#","iat":6"#] {
        assert_eq!(encode_message(i.verify_access(&token(more))), "JSON error: malformed claims");
    }
    for more in [r#","exp":9"#, r#","iss":"other""#, r#","sub":"x""#, r#","aud":1,"aud":2"#] {
        let m = encode_message(i.verify_access(&token(more)));
        assert!(m.starts_with("JSON error: "), "{m}");
    }
    let list = token_of(format!(r#"["{SUB}","access",false,1,5]"#));
    assert!(encode_message(i.verify_access(&list)).starts_with("JSON error: "));
    assert!(encode_message(i.verify_access(&token_of("5".to_string()))).starts_with("JSON error: "));
}

#[test]
fn lacking_claims_come_before_expiry_and_issuer() {
    let i = issuer();
    let token = |iss: &str, exp: i64| {
        hand_made(
            &[
                ("sub", serde_json::Value::from(SUB)),
                ("kind", serde_json::Value::from("refresh")),
                ("jti", serde_json::Value::from(JTI)),
                ("exp", serde_json::Value::from(exp)),
                ("iat", serde_json::Value::from(5)),
                ("iss", serde_json::Value::from(iss)),
            ],
            "secret",
        )
    };
    let (ours, later) = ("https://iris.example", now_secs() + 60);
    for t in [token(ours, 10), token(ours, later), token("other", 10), token("other", later)] {
        assert_eq!(encode_message(i.verify_access(&t)), "JSON error: malformed claims");
    }
    assert_eq!(encode_message(i.verify_refresh(&token(ours, 10))), "ExpiredSignature");
    assert_eq!(encode_message(i.verify_refresh(&token("other", 10))), "ExpiredSignature");
    assert_eq!(encode_message(i.verify_refresh(&token("other", later))), "InvalidIssuer");
    assert_eq!(i.verify_refresh(&token(ours, later)).unwrap().jti, 7);
}

#[test]
fn session_is_made_of_its_tokens() {
    let tokens = ("r".to_string(), 7, 99);
    let s = session_of(&auth_config(), "a".to_string(), tokens, Some(60), true);
    assert_eq!((s.access.name.as_str(), s.access.value.as_str()), (ACCESS_COOKIE, "a"));
    assert_eq!((s.refresh.name.as_str(), s.refresh.value.as_str()), (REFRESH_COOKIE, "r"));
    assert_eq!((s.refresh.path.as_str(), s.refresh.max_age_secs), ("/api/auth", 60));
    assert!(s.access.secure && s.refresh.http_only && s.refresh.same_site_lax);
    assert_eq!((s.jti, s.expires_at), (7, 99));
}
