use iris::admin::{
    active_session, bytes_of_gb, check_deletion, check_job_key, delete_user, diagnose_pick,
    diagnose_query, diagnose_suggestions, invitation_expiry, password_reset, remux_job_source, reset_user_password,
    set_user_display_name, storage_stats, trigger_gc, watch_history_limit, wipe_remux_job, GcCounts,
    PresenceSession, SessionCard, TmdbDiagnoseParsed,
};
use iris::api_error::ApiError;
use iris::password::verify_password;
use iris::search::MediaKind;
use iris::tmdb::{TmdbKind, TmdbSuggestion};
use iris::tmdb_resolve::ResolvedTitle;
use iris::user::{User, UserId};

fn user(id: u128) -> User {
    User {
        id: UserId(id),
        email: "a@b".to_string(),
        display_name: "Ann".to_string(),
        is_admin: false,
        created_at: 0,
    }
}

fn session() -> PresenceSession {
    PresenceSession {
        user_id: 1,
        infohash: "ab".to_string(),
        file_idx: 2,
        position_bits: 1.5f64.to_bits(),
        duration_bits: None,
        state: "playing".to_string(),
        client: Some("tv".to_string()),
        client_version: None,
        started_at: 10,
        last_seen_at: 20,
    }
}

#[test]
fn sessions_of_unknown_users_and_torrents_are_shown() {
    let v = active_session(session(), None, None, None);
    assert_eq!(v.display_name, "unknown");
    assert_eq!((v.torrent_name, v.tmdb_id, v.tmdb_verified, v.kind), (None, None, false, None));
    let card = SessionCard {
        torrent_name: "Show".to_string(),
        tmdb_id: Some(4),
        tmdb_verified: true,
        kind: Some("tv".to_string()),
    };
    let v = active_session(session(), Some(&user(1)), Some(card), Some("e1.mkv".to_string()));
    assert_eq!(v.display_name, "Ann");
    assert_eq!(v.torrent_name.as_deref(), Some("Show"));
    assert_eq!((v.tmdb_id, v.tmdb_verified, v.kind), (Some(4), true, Some(MediaKind::Tv)));
    assert_eq!(v.file_path.as_deref(), Some("e1.mkv"));
}

#[test]
fn recent_playback_is_bounded() {
    assert_eq!(watch_history_limit(None), 50);
    assert_eq!(watch_history_limit(Some(-4)), 1);
    assert_eq!(watch_history_limit(Some(201)), 200);
}

#[test]
fn administrators_cannot_delete_themselves() {
    assert!(check_deletion(UserId(1), UserId(2)).is_ok());
    assert!(matches!(check_deletion(UserId(1), UserId(1)), Err(ApiError::BadRequest(m)) if m == "cannot delete your own account"));
}

#[test]
fn deletion_is_recorded() {
    let u = user(0x0123456789abcdef0123456789abcdef);
    let e = delete_user(Some(&u), true).unwrap();
    assert_eq!((e.action.as_str(), e.resource_type.as_str()), ("user.delete", "user"));
    assert_eq!(e.resource_id.as_deref(), Some("01234567-89ab-cdef-0123-456789abcdef"));
    assert_eq!(e.details.as_deref(), Some("a@b"));
    assert!(matches!(delete_user(Some(&u), false), Err(ApiError::NotFound)));
    assert!(matches!(delete_user(None, true), Err(ApiError::NotFound)));
}

#[test]
fn password_reset_is_recorded() {
    let (h, e) = reset_user_password("12345678", Some(&user(1))).unwrap();
    assert!(verify_password("12345678", &h).unwrap());
    assert_eq!(e.action, "user.password_reset");
    assert!(matches!(reset_user_password("12345678", None), Err(ApiError::NotFound)));
    assert!(matches!(reset_user_password("short", Some(&user(1))), Err(ApiError::BadRequest(_))));
}

#[test]
fn display_name_update_is_recorded() {
    let e = set_user_display_name(UserId(1), "Bob", true).unwrap();
    assert_eq!((e.action.as_str(), e.details.as_deref()), ("user.display_name_update", Some("Bob")));
    assert!(matches!(set_user_display_name(UserId(1), "Bob", false), Err(ApiError::NotFound)));
}

#[test]
fn clean_up_is_recorded() {
    let c = GcCounts { used_bytes_before: 100, used_bytes_after: 40, evicted: 3 };
    assert_eq!(trigger_gc(&c).details.as_deref(), Some("3 torrent(s) evicted, 60 bytes freed"));
    let c = GcCounts { used_bytes_before: 40, used_bytes_after: 100, evicted: 0 };
    assert_eq!(trigger_gc(&c).details.as_deref(), Some("0 torrent(s) evicted, 0 bytes freed"));
}

#[test]
fn storage_is_counted_in_gibibytes() {
    assert_eq!(bytes_of_gb(2), 2_147_483_648);
    assert_eq!(bytes_of_gb(u64::MAX), u64::MAX);
    let s = storage_stats(100, 90, 75, 7, 4, 9);
    assert_eq!(s.max_storage_bytes, 107_374_182_400);
    assert_eq!(s.threshold_bytes, 96_636_764_160);
    assert_eq!(s.target_bytes, 80_530_636_800);
    assert_eq!((s.used_bytes, s.torrent_count, s.total_uploaded_bytes), (7, 4, 9));
}

#[test]
fn invitations_last_a_minute_at_least() {
    assert_eq!(invitation_expiry(Some(60), 9, 1000).unwrap(), 61_000);
    assert_eq!(invitation_expiry(None, 600, 0).unwrap(), 600_000);
    assert!(matches!(invitation_expiry(Some(59), 600, 0), Err(ApiError::BadRequest(m)) if m == "ttl too short"));
}

#[test]
fn prepared_files_are_named_after_their_source() {
    assert_eq!(remux_job_source("ABC_12"), (Some("abc".to_string()), Some(12)));
    assert_eq!(remux_job_source("abc_12_h264"), (Some("abc_12".to_string()), None));
    assert_eq!(remux_job_source("7"), (None, Some(7)));
    assert_eq!(remux_job_source(""), (None, None));
}

#[test]
fn wiped_names_lead_nowhere_else() {
    assert!(check_job_key("abc_12").is_ok());
    for bad in ["", "../x", "a.b", "a/b", "é"] {
        assert!(matches!(check_job_key(bad), Err(ApiError::BadRequest(m)) if m == "invalid remux job key"));
    }
    let e = wipe_remux_job("abc_12", 5);
    assert_eq!((e.action.as_str(), e.resource_type.as_str()), ("remux.wipe", "remux_job"));
    assert_eq!((e.resource_id.as_deref(), e.details.as_deref()), (Some("abc_12"), Some("5 bytes freed")));
}

#[test]
fn resolution_is_diagnosed() {
    let p = TmdbDiagnoseParsed {
        title: "Pride".to_string(),
        year: Some(2014),
        season: None,
        episode: None,
        is_tv: false,
    };
    assert_eq!(diagnose_query(true, Some(&p), "pride"), Some((TmdbKind::Movie, Some(2014))));
    assert_eq!(diagnose_query(true, Some(&p), "p"), None);
    assert_eq!(diagnose_query(false, Some(&p), "pride"), None);
    assert_eq!(diagnose_query(true, None, "pride"), None);
    let s = TmdbSuggestion {
        kind: TmdbKind::Tv,
        tmdb_id: 9,
        title: "Pride".to_string(),
        year: None,
        overview: None,
        poster_path: None,
    };
    let shown = diagnose_suggestions(&vec![s]);
    assert_eq!((shown[0].kind.as_str(), shown[0].tmdb_id), ("tv", 9));
    let picked = diagnose_pick(Some(ResolvedTitle {
        tmdb_id: 8,
        kind: TmdbKind::Movie,
        title: "Pride".to_string(),
        year: Some(2014),
        poster_path: None,
        overview: None,
    }));
    assert_eq!(picked.map(|d| (d.kind, d.year)), Some(("movie".to_string(), Some(2014))));
    assert!(diagnose_pick(None).is_none());
}

#[test]
fn reset_takes_what_hashing_gave() {
    let (hash, entry) = password_reset(Ok("$h".to_string()), &user(3)).unwrap();
    assert_eq!((hash.as_str(), entry.action.as_str()), ("$h", "user.password_reset"));
    assert_eq!(entry.details.as_deref(), Some("a@b"));
    let failed = Err(ApiError::Internal("x".to_string()));
    assert!(matches!(password_reset(failed, &user(3)), Err(ApiError::Internal(m)) if m == "x"));
}
