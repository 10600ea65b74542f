//! What administrators see and do.

use vstd::prelude::*;
use vstd::string::StringExecFns;

use crate::api_error;
use crate::api_error::{ApiError, Failure};
use crate::clock;
use crate::ids;
use crate::jwt;
use crate::me;
use crate::password;
use crate::path;
use crate::search::MediaKind;
use crate::text;
use crate::tmdb;
use crate::tmdb::{TmdbKind, TmdbSuggestion};
use crate::tmdb_resolve::ResolvedTitle;
use crate::user::{User, UserId};

verus! {

// ---------------------------------------------------------------------------
// Who watches what
// ---------------------------------------------------------------------------

/// Someone who is watching.
#[derive(Debug)]
pub struct PresenceSession {
    pub user_id: u128,
    pub infohash: String,
    pub file_idx: i64,
    /// Bits of double-precision numbers of seconds.
    pub position_bits: u64,
    pub duration_bits: Option<u64>,
    /// `playing` or `paused`.
    pub state: String,
    /// `web` or `tv`.
    pub client: Option<String>,
    pub client_version: Option<String>,
    /// Milliseconds since the Unix epoch.
    pub started_at: i64,
    pub last_seen_at: i64,
}

/// What the library knows of a torrent that is watched.
#[derive(Debug)]
pub struct SessionCard {
    pub torrent_name: String,
    pub tmdb_id: Option<i64>,
    pub tmdb_verified: bool,
    pub kind: Option<String>,
}

/// Someone who is watching, as an administrator sees it.
#[derive(Debug)]
pub struct ActiveSessionView {
    pub user_id: u128,
    pub display_name: String,
    pub infohash: String,
    pub file_idx: i64,
    pub torrent_name: Option<String>,
    pub file_path: Option<String>,
    pub tmdb_id: Option<i64>,
    pub tmdb_verified: bool,
    pub kind: Option<MediaKind>,
    pub position_bits: u64,
    pub duration_bits: Option<u64>,
    pub state: String,
    pub client: Option<String>,
    pub client_version: Option<String>,
    pub started_at: i64,
    pub last_seen_at: i64,
}

/// Someone who is watching, as an administrator sees it. A user who is gone is
/// called unknown.
pub fn active_session(
    s: PresenceSession,
    user: Option<&User>,
    card: Option<SessionCard>,
    file_path: Option<String>,
) -> (r: ActiveSessionView)
    ensures
        r.user_id == s.user_id,
        r.display_name@ == match user {
            Some(u) => u.display_name@,
            None => "unknown"@,
        },
        r.infohash == s.infohash,
        r.file_idx == s.file_idx,
        r.torrent_name == match card {
            Some(c) => Some(c.torrent_name),
            None => None,
        },
        r.file_path == file_path,
        r.tmdb_id == match card {
            Some(c) => c.tmdb_id,
            None => None,
        },
        r.tmdb_verified == (card is Some && card->0.tmdb_verified),
        r.kind == match card {
            Some(c) => me::kind_in(c.kind),
            None => None,
        },
        r.position_bits == s.position_bits,
        r.duration_bits == s.duration_bits,
        r.state == s.state,
        r.client == s.client,
        r.client_version == s.client_version,
        r.started_at == s.started_at,
        r.last_seen_at == s.last_seen_at,
{
    let display_name = match user {
        Some(u) => u.display_name.clone(),
        None => "unknown".to_string(),
    };
    let (torrent_name, tmdb_id, tmdb_verified, kind) = match card {
        Some(c) => {
            let kind = me::stored_kind(&c.kind);
            (Some(c.torrent_name), c.tmdb_id, c.tmdb_verified, kind)
        },
        None => (None, None, false, None),
    };
    ActiveSessionView {
        user_id: s.user_id,
        display_name,
        infohash: s.infohash,
        file_idx: s.file_idx,
        torrent_name,
        file_path,
        tmdb_id,
        tmdb_verified,
        kind,
        position_bits: s.position_bits,
        duration_bits: s.duration_bits,
        state: s.state,
        client: s.client,
        client_version: s.client_version,
        started_at: s.started_at,
        last_seen_at: s.last_seen_at,
    }
}

/// How many rows of recent playback a request asks for: between 1 and 200, and
/// 50 unless said.
pub fn watch_history_limit(limit: Option<i64>) -> (r: i64)
    ensures
        r == me::clamped(
            match limit {
                Some(n) => n,
                None => 50,
            },
            1,
            200,
        ),
{
    me::history_page(limit, None).0
}

// ---------------------------------------------------------------------------
// Users
// ---------------------------------------------------------------------------

/// A record of something that an administrator did.
#[derive(Debug)]
pub struct AuditEntry {
    pub action: String,
    pub resource_type: String,
    pub resource_id: Option<String>,
    pub details: Option<String>,
}

/// `e` records an action on a user.
pub open spec fn is_user_entry(
    e: AuditEntry,
    action: Seq<char>,
    user: UserId,
    details: Seq<char>,
) -> bool {
    &&& e.action@ == action
    &&& e.resource_type@ == "user"@
    &&& text::opt_view(e.resource_id) == Some(ids::uuid_text(user.0))
    &&& text::opt_view(e.details) == Some(details)
}

fn user_entry(action: &str, user: UserId, details: &str) -> (r: AuditEntry)
    ensures
        is_user_entry(r, action@, user, details@),
{
    AuditEntry {
        action: action.to_string(),
        resource_type: "user".to_string(),
        resource_id: Some(ids::write_uuid(user.0)),
        details: Some(details.to_string()),
    }
}

/// Administrators cannot delete themselves, so one is always left.
pub fn check_deletion(admin: UserId, target: UserId) -> (r: Result<(), ApiError>)
    ensures
        if admin == target {
            r matches Err(e) && e@ == Failure::BadRequest("cannot delete your own account"@)
        } else {
            r is Ok
        },
{
    if admin == target {
        Err(api_error::bad_request("cannot delete your own account"))
    } else {
        Ok(())
    }
}

/// What deleting a user comes to: the user has to have been there when looked
/// up, and when deleted.
pub fn delete_user(target: Option<&User>, deleted: bool) -> (r: Result<AuditEntry, ApiError>)
    ensures
        match target {
            Some(u) => if deleted {
                r matches Ok(e) && is_user_entry(e, "user.delete"@, u.id, u.email@)
            } else {
                r matches Err(e) && e@ == Failure::NotFound
            },
            None => r matches Err(e) && e@ == Failure::NotFound,
        },
{
    match target {
        Some(u) => {
            if deleted {
                Ok(user_entry("user.delete", u.id, u.email.as_str()))
            } else {
                Err(ApiError::NotFound)
            }
        },
        None => Err(ApiError::NotFound),
    }
}

/// The hash to store, and what to record, when a user's password is reset, by
/// what hashing the new one gave.
pub fn password_reset(hash: Result<String, ApiError>, user: &User) -> (r: Result<
    (String, AuditEntry),
    ApiError,
>)
    ensures
        match hash {
            Ok(h) => r matches Ok(p) && p.0 == h && is_user_entry(
                p.1,
                "user.password_reset"@,
                user.id,
                user.email@,
            ),
            Err(e) => r == Err::<(String, AuditEntry), ApiError>(e),
        },
{
    match hash {
        Ok(h) => Ok((h, user_entry("user.password_reset", user.id, user.email.as_str()))),
        Err(e) => Err(e),
    }
}

/// The hash to store, and what to record, when a user's password is reset: what
/// [`password_reset`] makes of the hash of the new one.
pub fn reset_user_password(new_password: &str, target: Option<&User>) -> (r: Result<
    (String, AuditEntry),
    ApiError,
>)
    ensures
        if new_password@.len() < 8 {
            r matches Err(e) && e@ == Failure::BadRequest("new password too short (min 8 chars)"@)
        } else {
            match target {
                None => r matches Err(e) && e@ == Failure::NotFound,
                Some(u) => match r {
                    Ok(p) => password::is_hash_of(new_password@, p.0@) && is_user_entry(
                        p.1,
                        "user.password_reset"@,
                        u.id,
                        u.email@,
                    ),
                    Err(e) => e@ is Internal && password::is_hash_fault(
                        "hash: argon2 error: "@,
                        new_password@,
                        e@->Internal_0,
                    ),
                },
            }
        },
{
    match me::check_new_password(new_password) {
        Ok(_) => {},
        Err(e) => return Err(e),
    }
    match target {
        None => Err(ApiError::NotFound),
        Some(u) => password_reset(me::new_hash(new_password), u),
    }
}

/// What setting a user's display name comes to; `name` is what
/// [`me::change_display_name`] made of it.
pub fn set_user_display_name(user: UserId, name: &str, updated: bool) -> (r: Result<
    AuditEntry,
    ApiError,
>)
    ensures
        if updated {
            r matches Ok(e) && is_user_entry(e, "user.display_name_update"@, user, name@)
        } else {
            r matches Err(e) && e@ == Failure::NotFound
        },
{
    if updated {
        Ok(user_entry("user.display_name_update", user, name))
    } else {
        Err(ApiError::NotFound)
    }
}

// ---------------------------------------------------------------------------
// Storage
// ---------------------------------------------------------------------------

/// What a clean-up reports.
#[derive(Debug)]
pub struct GcCounts {
    pub used_bytes_before: u64,
    pub used_bytes_after: u64,
    pub evicted: u64,
}

/// Bytes that a clean-up freed; none where more is used after it than before.
pub open spec fn freed_bytes(c: GcCounts) -> nat {
    if c.used_bytes_before >= c.used_bytes_after {
        (c.used_bytes_before - c.used_bytes_after) as nat
    } else {
        0
    }
}

/// What to record of a clean-up that an administrator asked for.
pub fn trigger_gc(counts: &GcCounts) -> (r: AuditEntry)
    ensures
        r.action@ == "gc.evict"@,
        r.resource_type@ == "torrent"@,
        r.resource_id is None,
        text::opt_view(r.details) == Some(
            text::decimal(counts.evicted as nat) + " torrent(s) evicted, "@ + text::decimal(
                freed_bytes(*counts),
            ) + " bytes freed"@,
        ),
{
    let freed: u64 = if counts.used_bytes_before >= counts.used_bytes_after {
        counts.used_bytes_before - counts.used_bytes_after
    } else {
        0
    };
    let mut s = text::decimal_u64(counts.evicted);
    s.append(" torrent(s) evicted, ");
    s.append(text::decimal_u64(freed).as_str());
    s.append(" bytes freed");
    AuditEntry {
        action: "gc.evict".to_string(),
        resource_type: "torrent".to_string(),
        resource_id: None,
        details: Some(s),
    }
}

#[derive(Debug, Clone, Copy, PartialEq, Eq, Structural)]
pub struct StorageStats {
    pub used_bytes: u64,
    pub max_storage_bytes: u64,
    pub threshold_bytes: u64,
    pub target_bytes: u64,
    pub threshold_pct: u8,
    pub target_pct: u8,
    pub torrent_count: i64,
    pub total_uploaded_bytes: u64,
}

/// Bytes of a gibibyte.
pub const GIBIBYTE: u64 = 1_073_741_824;

/// Bytes that so many gibibytes are; the most that can be counted where they
/// are more.
pub open spec fn gibibytes(n: u64) -> int {
    if n * GIBIBYTE <= u64::MAX {
        n * GIBIBYTE
    } else {
        u64::MAX as int
    }
}

/// Bytes that so many gibibytes are.
pub fn bytes_of_gb(n: u64) -> (r: u64)
    ensures
        r == gibibytes(n),
{
    if n <= u64::MAX / GIBIBYTE {
        n * GIBIBYTE
    } else {
        u64::MAX
    }
}

/// How much is stored, how much may be, and when a clean-up starts and ends.
pub fn storage_stats(
    max_storage_gb: u64,
    threshold_pct: u8,
    target_pct: u8,
    used_bytes: u64,
    torrent_count: i64,
    total_uploaded_bytes: u64,
) -> (r: StorageStats)
    requires
        gibibytes(max_storage_gb) * threshold_pct <= u64::MAX,
        gibibytes(max_storage_gb) * target_pct <= u64::MAX,
    ensures
        r.used_bytes == used_bytes,
        r.max_storage_bytes == gibibytes(max_storage_gb),
        r.threshold_bytes == gibibytes(max_storage_gb) * threshold_pct / 100,
        r.target_bytes == gibibytes(max_storage_gb) * target_pct / 100,
        r.threshold_pct == threshold_pct,
        r.target_pct == target_pct,
        r.torrent_count == torrent_count,
        r.total_uploaded_bytes == total_uploaded_bytes,
{
    let max: u64 = bytes_of_gb(max_storage_gb);
    StorageStats {
        used_bytes,
        max_storage_bytes: max,
        threshold_bytes: max * (threshold_pct as u64) / 100,
        target_bytes: max * (target_pct as u64) / 100,
        threshold_pct,
        target_pct,
        torrent_count,
        total_uploaded_bytes,
    }
}

// ---------------------------------------------------------------------------
// Invitations
// ---------------------------------------------------------------------------

/// Shortest lifetime of an invitation, in seconds.
pub const MIN_INVITATION_TTL_SECS: i64 = 60;

/// The instant at which an invitation expires: after the lifetime that was
/// asked for, or the configured one.
pub fn invitation_expiry(asked: Option<i64>, configured: i64, now: i64) -> (r: Result<
    i64,
    ApiError,
>)
    requires
        clock::EARLIEST_MS <= now <= clock::LATEST_MS,
        asked_or(asked, configured) >= MIN_INVITATION_TTL_SECS ==> jwt::is_ttl(
            asked_or(asked, configured),
        ),
    ensures
        if asked_or(asked, configured) < MIN_INVITATION_TTL_SECS {
            r matches Err(e) && e@ == Failure::BadRequest("ttl too short"@)
        } else {
            r matches Ok(t) && t == now + asked_or(asked, configured) * 1000
        },
{
    let ttl: i64 = match asked {
        Some(t) => t,
        None => configured,
    };
    if ttl < MIN_INVITATION_TTL_SECS {
        return Err(api_error::bad_request("ttl too short"));
    }
    Ok(now + ttl * 1000)
}

pub open spec fn asked_or(asked: Option<i64>, configured: i64) -> i64 {
    match asked {
        Some(t) => t,
        None => configured,
    }
}

// ---------------------------------------------------------------------------
// Prepared files
// ---------------------------------------------------------------------------

/// The torrent and file that a prepared file is named after: what stands
/// before and after the last underscore.
pub fn remux_job_source(key: &str) -> (r: (Option<String>, Option<usize>))
    ensures
        ({
            let i = path::last_of(key@, '_');
            &&& text::opt_view(r.0) == if i >= 0 {
                Some(text::lowered(key@.take(i)))
            } else {
                None
            }
            &&& match text::unsigned_in(key@.skip(i + 1), usize::MAX as nat) {
                Some(n) => r.1 is Some && r.1->0 == n,
                None => r.1 is None,
            }
        }),
{
    let v = text::chars_of(key);
    let n: usize = path::after_last(&v, '_');
    let tail = text::text_between(&v, n, v.len());
    assert(tail@ =~= key@.skip(n as int));
    let infohash = if n > 0 {
        let head = text::text_between(&v, 0, n - 1);
        assert(head@ =~= key@.take(n - 1));
        Some(text::to_ascii_lowercase(head.as_str()))
    } else {
        None
    };
    (infohash, text::parse_usize(tail.as_str()))
}

/// A character that may stand in the name of a prepared file.
pub open spec fn is_key_char(c: char) -> bool {
    '0' <= c <= '9' || 'a' <= c <= 'z' || 'A' <= c <= 'Z' || c == '_'
}

/// A name that leads nowhere but to a prepared file.
pub open spec fn is_job_key(key: Seq<char>) -> bool {
    key.len() > 0 && forall|i: int| 0 <= i < key.len() ==> is_key_char(#[trigger] key[i])
}

/// Whether a name may be wiped.
pub fn check_job_key(key: &str) -> (r: Result<(), ApiError>)
    ensures
        if is_job_key(key@) {
            r is Ok
        } else {
            r matches Err(e) && e@ == Failure::BadRequest("invalid remux job key"@)
        },
{
    let v = text::chars_of(key);
    for i in 0..v.len()
        invariant
            v@ == key@,
            forall|j: int| 0 <= j < i ==> is_key_char(#[trigger] key@[j]),
    {
        let c = v[i];
        let fits = ('0' <= c && c <= '9') || ('a' <= c && c <= 'z') || ('A' <= c && c <= 'Z') || c
            == '_';
        if !fits {
            assert(!is_key_char(key@[i as int]));
            return Err(api_error::bad_request("invalid remux job key"));
        }
    }
    if v.len() == 0 {
        return Err(api_error::bad_request("invalid remux job key"));
    }
    Ok(())
}

/// A name that may be wiped holds neither a slash nor a dot, so that it leads
/// to no other place.
pub proof fn job_key_leads_nowhere_else(key: Seq<char>)
    requires
        is_job_key(key),
    ensures
        text::lacks(key, '/'),
        text::lacks(key, '\\'),
        text::lacks(key, '.'),
{
}

/// What to record of a prepared file that was wiped.
pub fn wipe_remux_job(key: &str, freed: u64) -> (r: AuditEntry)
    ensures
        r.action@ == "remux.wipe"@,
        r.resource_type@ == "remux_job"@,
        text::opt_view(r.resource_id) == Some(key@),
        text::opt_view(r.details) == Some(text::decimal(freed as nat) + " bytes freed"@),
{
    let mut s = text::decimal_u64(freed);
    s.append(" bytes freed");
    AuditEntry {
        action: "remux.wipe".to_string(),
        resource_type: "remux_job".to_string(),
        resource_id: Some(key.to_string()),
        details: Some(s),
    }
}

// ---------------------------------------------------------------------------
// How a title was resolved
// ---------------------------------------------------------------------------

/// What the name of a torrent tells.
#[derive(Debug)]
pub struct TmdbDiagnoseParsed {
    pub title: String,
    pub year: Option<u16>,
    pub season: Option<u32>,
    pub episode: Option<u32>,
    pub is_tv: bool,
}

#[derive(Debug)]
pub struct TmdbDiagnoseSuggestion {
    pub kind: String,
    pub tmdb_id: u64,
    pub title: String,
    pub year: Option<u32>,
    pub poster_path: Option<String>,
}

/// What a torrent's title is resolved by, where it can be: TMDB is configured,
/// the name tells something, and the title has at least two bytes.
pub fn diagnose_query(
    configured: bool,
    parsed: Option<&TmdbDiagnoseParsed>,
    cleaned: &str,
) -> (r: Option<(TmdbKind, Option<u32>)>)
    ensures
        r == if configured && parsed is Some && text::byte_len(cleaned@) >= 2 {
            Some(
                (
                    if parsed->0.is_tv {
                        TmdbKind::Tv
                    } else {
                        TmdbKind::Movie
                    },
                    match parsed->0.year {
                        Some(y) => Some(y as u32),
                        None => None,
                    },
                ),
            )
        } else {
            None
        },
{
    if !configured || text::byte_length(cleaned) < 2 {
        return None;
    }
    match parsed {
        Some(p) => {
            let kind = if p.is_tv {
                TmdbKind::Tv
            } else {
                TmdbKind::Movie
            };
            let year = match p.year {
                Some(y) => Some(y as u32),
                None => None,
            };
            Some((kind, year))
        },
        None => None,
    }
}

/// `d` shows a title.
pub open spec fn shows_title(
    d: TmdbDiagnoseSuggestion,
    kind: TmdbKind,
    tmdb_id: u64,
    title: String,
    year: Option<u32>,
    poster_path: Option<String>,
) -> bool {
    &&& d.kind@ == tmdb::kind_word(kind)
    &&& d.tmdb_id == tmdb_id
    &&& d.title == title
    &&& d.year == year
    &&& d.poster_path == poster_path
}

/// Suggestions as an administrator sees them.
pub fn diagnose_suggestions(found: &Vec<TmdbSuggestion>) -> (r: Vec<TmdbDiagnoseSuggestion>)
    ensures
        r@.len() == found@.len(),
        forall|i: int|
            0 <= i < r@.len() ==> shows_title(
                #[trigger] r@[i],
                found@[i].kind,
                found@[i].tmdb_id,
                found@[i].title,
                found@[i].year,
                found@[i].poster_path,
            ),
{
    let mut out: Vec<TmdbDiagnoseSuggestion> = Vec::new();
    for i in 0..found.len()
        invariant
            out@.len() == i,
            forall|j: int|
                0 <= j < out@.len() ==> shows_title(
                    #[trigger] out@[j],
                    found@[j].kind,
                    found@[j].tmdb_id,
                    found@[j].title,
                    found@[j].year,
                    found@[j].poster_path,
                ),
    {
        out.push(
            TmdbDiagnoseSuggestion {
                kind: tmdb::kind_marker(found[i].kind).to_string(),
                tmdb_id: found[i].tmdb_id,
                title: found[i].title.clone(),
                year: found[i].year,
                poster_path: text::clone_opt(&found[i].poster_path),
            },
        );
    }
    out
}

/// The title that was picked, as an administrator sees it.
pub fn diagnose_pick(picked: Option<ResolvedTitle>) -> (r: Option<TmdbDiagnoseSuggestion>)
    ensures
        match picked {
            Some(t) => r is Some && shows_title(
                r->0,
                t.kind,
                t.tmdb_id,
                t.title,
                t.year,
                t.poster_path,
            ),
            None => r is None,
        },
{
    match picked {
        Some(t) => Some(
            TmdbDiagnoseSuggestion {
                kind: tmdb::kind_marker(t.kind).to_string(),
                tmdb_id: t.tmdb_id,
                title: t.title,
                year: t.year,
                poster_path: t.poster_path,
            },
        ),
        None => None,
    }
}

// ---------------------------------------------------------------------------
// Laws
// ---------------------------------------------------------------------------

/// Who is watching is shown with what they told; the torrent adds its name and
/// title where it is known, and a user who is gone is called unknown.
pub proof fn watching_is_shown_as_told(
    s: PresenceSession,
    user: Option<&User>,
    card: Option<SessionCard>,
    file_path: Option<String>,
    r: ActiveSessionView,
)
    requires
        call_ensures(active_session, (s, user, card, file_path), r),
    ensures
        r.user_id == s.user_id && r.infohash == s.infohash && r.file_idx == s.file_idx,
        r.position_bits == s.position_bits && r.duration_bits == s.duration_bits && r.state
            == s.state,
        r.client == s.client && r.client_version == s.client_version,
        r.started_at == s.started_at && r.last_seen_at == s.last_seen_at && r.file_path == file_path,
        user is Some ==> r.display_name@ == user->0.display_name@,
        user is None ==> r.display_name@ == seq!['u', 'n', 'k', 'n', 'o', 'w', 'n'],
        card is Some ==> r.torrent_name == Some(card->0.torrent_name) && r.tmdb_id
            == card->0.tmdb_id && r.tmdb_verified == card->0.tmdb_verified,
        card is None ==> r.torrent_name is None && r.tmdb_id is None && !r.tmdb_verified
            && r.kind is None,
{
    reveal_strlit("unknown");
    assert("unknown"@ =~= seq!['u', 'n', 'k', 'n', 'o', 'w', 'n']);
}

/// A request for playback gets as many rows as it asks for, one at least and
/// two hundred at most, and fifty where it does not say.
pub proof fn history_is_between_one_and_two_hundred(limit: Option<i64>, r: i64)
    requires
        call_ensures(watch_history_limit, (limit,), r),
    ensures
        1 <= r <= 200,
        limit is None ==> r == 50,
        limit is Some && 1 <= limit->0 <= 200 ==> r == limit->0,
        limit is Some && limit->0 < 1 ==> r == 1,
        limit is Some && limit->0 > 200 ==> r == 200,
{
}

/// Nobody deletes their own account, and everybody else's can be deleted.
pub proof fn nobody_deletes_themselves(admin: UserId, target: UserId, r: Result<(), ApiError>)
    requires
        call_ensures(check_deletion, (admin, target), r),
    ensures
        r is Err <==> admin.0 == target.0,
        r is Err ==> r->Err_0@ is BadRequest,
{
}

/// A record of an action on a user names the user.
pub open spec fn names_user(e: AuditEntry, user: UserId) -> bool {
    e.resource_type@ == seq!['u', 's', 'e', 'r'] && e.resource_id is Some && e.resource_id->0@
        == ids::uuid_text(user.0)
}

/// What is done to a user is recorded, under a word of its own, for that user;
/// what was not done is not found.
pub proof fn deeds_on_users_are_recorded(
    target: Option<&User>,
    done: bool,
    id: UserId,
    name: &str,
    user: &User,
    hash: Result<String, ApiError>,
    deleted: Result<AuditEntry, ApiError>,
    renamed: Result<AuditEntry, ApiError>,
    reset: Result<(String, AuditEntry), ApiError>,
)
    requires
        call_ensures(delete_user, (target, done), deleted),
        call_ensures(set_user_display_name, (id, name, done), renamed),
        call_ensures(password_reset, (hash, user), reset),
    ensures
        deleted is Ok <==> target is Some && done,
        deleted is Ok ==> deleted->Ok_0.action@ == "user.delete"@ && names_user(
            deleted->Ok_0,
            target->0.id,
        ) && deleted->Ok_0.details is Some && deleted->Ok_0.details->0@ == target->0.email@,
        deleted is Err ==> deleted->Err_0@ is NotFound,
        renamed is Ok <==> done,
        renamed is Ok ==> renamed->Ok_0.action@ == "user.display_name_update"@ && names_user(
            renamed->Ok_0,
            id,
        ) && renamed->Ok_0.details is Some && renamed->Ok_0.details->0@ == name@,
        renamed is Err ==> renamed->Err_0@ is NotFound,
        reset is Ok <==> hash is Ok,
        reset is Ok ==> (reset->Ok_0).0 == hash->Ok_0 && (reset->Ok_0).1.action@
            == "user.password_reset"@ && names_user((reset->Ok_0).1, user.id)
            && (reset->Ok_0).1.details is Some && (reset->Ok_0).1.details->0@ == user.email@,
        reset is Err ==> reset->Err_0 == hash->Err_0,
{
    reveal_strlit("user");
    assert("user"@ =~= seq!['u', 's', 'e', 'r']);
}

/// A password that is reset lets the user in; one of less than eight
/// characters is refused, whoever it is for.
pub proof fn reset_password_lets_in(
    new_password: &str,
    target: Option<&User>,
    r: Result<(String, AuditEntry), ApiError>,
    hash: &str,
    v: Result<bool, password::PasswordError>,
)
    requires
        call_ensures(reset_user_password, (new_password, target), r),
        r is Ok ==> hash@ == (r->Ok_0).0@,
        call_ensures(password::verify_password, (new_password, hash), v),
    ensures
        new_password@.len() < 8 ==> r is Err && r->Err_0@ is BadRequest,
        new_password@.len() >= 8 && target is None ==> r is Err && r->Err_0@ is NotFound,
        r is Ok ==> target is Some && v == Ok::<bool, password::PasswordError>(true),
        r is Ok ==> (r->Ok_0).1.resource_id is Some && (r->Ok_0).1.resource_id->0@
            == ids::uuid_text(target->0.id.0),
{
}

/// A clean-up is recorded with what it evicted and by how much less is stored
/// after it; where more is, nothing was freed.
pub proof fn cleanup_is_recorded_with_its_bytes(
    c: &GcCounts,
    freed: u64,
    n: String,
    b: String,
    r: AuditEntry,
)
    requires
        c.used_bytes_after + freed == c.used_bytes_before || (c.used_bytes_after
            > c.used_bytes_before && freed == 0),
        call_ensures(text::decimal_u64, (c.evicted,), n),
        call_ensures(text::decimal_u64, (freed,), b),
        call_ensures(trigger_gc, (c,), r),
    ensures
        r.details is Some && r.details->0@ == n@ + " torrent(s) evicted, "@ + b@ + " bytes freed"@,
        r.action@ == "gc.evict"@ && r.resource_type@ == "torrent"@ && r.resource_id is None,
{
}

/// A clean-up starts and ends at shares of what may be stored, the higher share
/// at the higher amount, and a hundred percent are all of it.
pub proof fn shares_are_of_what_may_be_stored(
    gb: u64,
    threshold: u8,
    target: u8,
    used: u64,
    count: i64,
    uploaded: u64,
    max: u64,
    r: StorageStats,
)
    requires
        gibibytes(gb) * threshold <= u64::MAX,
        gibibytes(gb) * target <= u64::MAX,
        call_ensures(bytes_of_gb, (gb,), max),
        call_ensures(storage_stats, (gb, threshold, target, used, count, uploaded), r),
    ensures
        r.max_storage_bytes == max,
        gb <= 17_179_869_183 ==> max == gb * (1024 * 1024 * 1024),
        gb > 17_179_869_183 ==> max == u64::MAX,
        threshold == 100 ==> r.threshold_bytes == max,
        target == 50 ==> max - 1 <= 2 * r.target_bytes <= max,
        target <= threshold ==> r.target_bytes <= r.threshold_bytes,
        threshold <= 100 ==> r.threshold_bytes <= max,
        threshold == 0 ==> r.threshold_bytes == 0,
        r.used_bytes == used && r.torrent_count == count && r.total_uploaded_bytes == uploaded,
        r.threshold_pct == threshold && r.target_pct == target,
{
    let m = gibibytes(gb);
    if target <= threshold {
        assert(m * target <= m * threshold) by (nonlinear_arith)
            requires
                m >= 0,
                target <= threshold,
        ;
    }
    if threshold <= 100 {
        assert(m * threshold <= m * 100) by (nonlinear_arith)
            requires
                m >= 0,
                threshold <= 100,
        ;
    }
}

/// An invitation lasts a minute at least: as long as was asked for, or as
/// configured.
pub proof fn invitation_lasts_as_asked(
    asked: Option<i64>,
    configured: i64,
    now: i64,
    r: Result<i64, ApiError>,
)
    requires
        clock::EARLIEST_MS <= now <= clock::LATEST_MS,
        asked_or(asked, configured) >= MIN_INVITATION_TTL_SECS ==> jwt::is_ttl(
            asked_or(asked, configured),
        ),
        call_ensures(invitation_expiry, (asked, configured, now), r),
    ensures
        asked is Some ==> (r is Ok <==> asked->0 >= 60),
        asked is None ==> (r is Ok <==> configured >= 60),
        r is Ok && asked is Some ==> r->Ok_0 - now == asked->0 * 1000,
        r is Ok && asked is None ==> r->Ok_0 - now == configured * 1000,
        r is Err ==> r->Err_0@ is BadRequest,
{
}

/// A prepared file that is named after a torrent and a file tells both, though
/// the name of the torrent holds an underscore itself.
pub proof fn prepared_file_tells_its_source(
    torrent: Seq<char>,
    file: u64,
    digits: String,
    key: &str,
    r: (Option<String>, Option<usize>),
)
    requires
        file <= usize::MAX,
        call_ensures(text::decimal_u64, (file,), digits),
        call_ensures(remux_job_source, (key,), r),
    ensures
        key@ == torrent + seq!['_'] + digits@ ==> r.0 is Some && r.0->0@.len() == torrent.len()
            && r.1 is Some && r.1->0 == file,
        key@ == torrent + seq!['_'] + digits@ && (forall|i: int|
            0 <= i < torrent.len() ==> !('A' <= #[trigger] torrent[i] <= 'Z')) ==> r.0->0@
            == torrent,
        text::lacks(key@, '_') ==> r.0 is None,
        text::lacks(key@, '_') && key@ == digits@ ==> r.1 is Some && r.1->0 == file,
{
    text::decimal_denotes(file as nat);
    let d = text::decimal(file as nat);
    let k = torrent + seq!['_'] + d;
    assert forall|i: int| 0 <= i < d.len() implies #[trigger] d[i] != '_' && d[i] != '+' by {
        assert(text::is_digit(d[i]));
    }
    lemma_last_underscore(torrent, d);
    assert(k.take(torrent.len() as int) =~= torrent);
    assert(k.skip(torrent.len() as int + 1) =~= d);
    if (forall|i: int| 0 <= i < torrent.len() ==> !('A' <= #[trigger] torrent[i] <= 'Z')) {
        assert(text::lowered(torrent) =~= torrent);
    }
    if text::lacks(key@, '_') {
        lemma_no_underscore(key@);
        assert(key@.skip(0) =~= key@);
    }
}

proof fn lemma_last_underscore(a: Seq<char>, b: Seq<char>)
    requires
        forall|i: int| 0 <= i < b.len() ==> #[trigger] b[i] != '_',
    ensures
        path::last_of(a + seq!['_'] + b, '_') == a.len(),
    decreases b.len(),
{
    let s = a + seq!['_'] + b;
    if b.len() > 0 {
        assert(b[b.len() - 1] != '_');
        assert(s.last() == b.last());
        assert(s.drop_last() =~= a + seq!['_'] + b.drop_last());
        assert forall|i: int| 0 <= i < b.drop_last().len() implies #[trigger] b.drop_last()[i] != '_' by {
            assert(b[i] != '_');
        }
        lemma_last_underscore(a, b.drop_last());
    } else {
        assert(s.last() == '_');
    }
}

proof fn lemma_no_underscore(s: Seq<char>)
    requires
        text::lacks(s, '_'),
    ensures
        path::last_of(s, '_') == -1,
    decreases s.len(),
{
    if s.len() > 0 {
        assert(s[s.len() - 1] != '_');
        assert forall|i: int| 0 <= i < s.drop_last().len() implies #[trigger] s.drop_last()[i] != '_' by {
            assert(s[i] != '_');
        }
        lemma_no_underscore(s.drop_last());
    }
}

/// A name of digits, letters and underscores can be wiped, and no other; what
/// was wiped is recorded under its name.
pub proof fn only_plain_names_are_wiped(
    key: &str,
    freed: u64,
    b: String,
    r: Result<(), ApiError>,
    e: AuditEntry,
)
    requires
        call_ensures(check_job_key, (key,), r),
        call_ensures(text::decimal_u64, (freed,), b),
        call_ensures(wipe_remux_job, (key, freed), e),
    ensures
        r is Ok <==> key@.len() > 0 && forall|i: int|
            0 <= i < key@.len() ==> ('0' <= #[trigger] key@[i] <= '9') || ('a' <= key@[i] <= 'z') || (
            'A' <= key@[i] <= 'Z') || key@[i] == '_',
        r is Err ==> r->Err_0@ is BadRequest,
        e.action@ == "remux.wipe"@ && e.resource_type@ == "remux_job"@,
        e.resource_id is Some && e.resource_id->0@ == key@,
        e.details is Some && e.details->0@ == b@ + " bytes freed"@,
{
    if r is Ok {
        assert forall|i: int| 0 <= i < key@.len() implies ('0' <= #[trigger] key@[i] <= '9') || ('a'
            <= key@[i] <= 'z') || ('A' <= key@[i] <= 'Z') || key@[i] == '_' by {
            assert(is_key_char(key@[i]));
        }
    } else if key@.len() > 0 {
        let i = choose|i: int| 0 <= i < key@.len() && !is_key_char(#[trigger] key@[i]);
        assert(!is_key_char(key@[i]));
    }
}

/// A title is looked for where TMDB can be asked and the name tells something:
/// as a show where it is one, and in the year that it tells.
pub proof fn title_is_diagnosed_by_its_name(
    configured: bool,
    parsed: Option<&TmdbDiagnoseParsed>,
    cleaned: &str,
    r: Option<(TmdbKind, Option<u32>)>,
)
    requires
        call_ensures(diagnose_query, (configured, parsed, cleaned), r),
    ensures
        !configured || parsed is None || cleaned@.len() == 0 ==> r is None,
        configured && parsed is Some && cleaned@.len() >= 2 ==> r is Some,
        r is Some ==> ((r->0).0 is Tv <==> parsed->0.is_tv),
        r is Some ==> ((r->0).1 is Some <==> parsed->0.year is Some),
        r is Some && (r->0).1 is Some ==> (r->0).1->0 == parsed->0.year->0,
{
    text::characters_take_bytes(cleaned@);
}

/// What was found and what was picked is shown as it is, in turn.
pub proof fn diagnosis_shows_what_was_found(
    found: &Vec<TmdbSuggestion>,
    shown: Vec<TmdbDiagnoseSuggestion>,
    i: int,
    word: &str,
    picked: Option<ResolvedTitle>,
    w: &str,
    pick: Option<TmdbDiagnoseSuggestion>,
)
    requires
        call_ensures(diagnose_suggestions, (found,), shown),
        0 <= i < found@.len(),
        call_ensures(tmdb::kind_marker, (found@[i].kind,), word),
        call_ensures(diagnose_pick, (picked,), pick),
        picked is Some ==> call_ensures(tmdb::kind_marker, (picked->0.kind,), w),
    ensures
        shown@.len() == found@.len(),
        shown@[i].kind@ == word@ && shown@[i].tmdb_id == found@[i].tmdb_id && shown@[i].title
            == found@[i].title && shown@[i].year == found@[i].year && shown@[i].poster_path
            == found@[i].poster_path,
        pick is Some <==> picked is Some,
        pick is Some ==> pick->0.kind@ == w@ && pick->0.tmdb_id == picked->0.tmdb_id
            && pick->0.title == picked->0.title && pick->0.year == picked->0.year
            && pick->0.poster_path == picked->0.poster_path,
{
    assert(shows_title(
        shown@[i],
        found@[i].kind,
        found@[i].tmdb_id,
        found@[i].title,
        found@[i].year,
        found@[i].poster_path,
    ));
}

} // verus!
