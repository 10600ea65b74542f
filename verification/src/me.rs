//! What belongs to one user: profile, watchlist, and what to watch next.

use vstd::prelude::*;
use vstd::string::StringExecFns;

use crate::api_error;
use crate::api_error::{ApiError, Failure};
use crate::follows::FollowRow;
use crate::grab_flow::FileEntry;
use crate::order;
use crate::order::Ranked;
use crate::password;
use crate::search;
use crate::search::MediaKind;
use crate::text;
use crate::tmdb::EpisodeMetadata;
use crate::user::User;

verus! {

// ---------------------------------------------------------------------------
// Profile
// ---------------------------------------------------------------------------

/// A user's own profile.
#[derive(Debug, Clone)]
pub struct MeResponse {
    pub id: u128,
    pub email: String,
    pub display_name: String,
    pub is_admin: bool,
}

/// The caller's profile; a caller that is gone is not authenticated.
pub fn me(user: Option<User>) -> (r: Result<MeResponse, ApiError>)
    ensures
        match user {
            Some(u) => r == Ok::<MeResponse, ApiError>(
                (MeResponse {
                    id: u.id.0,
                    email: u.email,
                    display_name: u.display_name,
                    is_admin: u.is_admin,
                }),
            ),
            None => r matches Err(e) && e@ == Failure::Unauthorized,
        },
{
    match user {
        Some(u) => Ok(
            MeResponse {
                id: u.id.0,
                email: u.email,
                display_name: u.display_name,
                is_admin: u.is_admin,
            },
        ),
        None => Err(ApiError::Unauthorized),
    }
}

/// A new password has at least eight characters.
pub fn check_new_password(new_password: &str) -> (r: Result<(), ApiError>)
    ensures
        match r {
            Ok(_) => new_password@.len() >= 8,
            Err(e) => new_password@.len() < 8 && e@ == Failure::BadRequest(
                "new password too short (min 8 chars)"@,
            ),
        },
{
    if text::chars_of(new_password).len() < 8 {
        Err(api_error::bad_request("new password too short (min 8 chars)"))
    } else {
        Ok(())
    }
}

/// Whether a stored hash, where there is one, lets a password pass.
pub fn check_old_password(old_password: &str, stored: Option<&str>) -> (r: Result<(), ApiError>)
    ensures
        match stored {
            None => r matches Err(e) && e@ == Failure::Unauthorized,
            Some(h) => match password::password_check(old_password@, h@) {
                Some(ok) => if ok {
                    r is Ok
                } else {
                    r matches Err(e) && e@ == Failure::Unauthorized
                },
                None => r matches Err(e) && e@ is Internal && "verify: argon2 error: "@.is_prefix_of(
                    e@->Internal_0,
                ),
            },
        },
{
    match stored {
        None => Err(ApiError::Unauthorized),
        Some(h) => match password::verify_password(old_password, h) {
            Ok(ok) => {
                if ok {
                    Ok(())
                } else {
                    Err(ApiError::Unauthorized)
                }
            },
            Err(e) => {
                proof {
                    reveal_strlit("verify: ");
                    reveal_strlit("argon2 error: ");
                    reveal_strlit("verify: argon2 error: ");
                    assert("verify: argon2 error: "@ =~= "verify: "@ + "argon2 error: "@);
                }
                Err(password_failure("verify: ", "verify: argon2 error: ", &e))
            },
        },
    }
}

/// An error of the password functions, after what was done.
pub(crate) fn password_failure(
    doing: &str,
    whole: &str,
    e: &password::PasswordError,
) -> (r: ApiError)
    requires
        whole@ == doing@ + "argon2 error: "@,
    ensures
        r@ == Failure::Internal(whole@ + e->Argon2_0@),
{
    let m = api_error::prefixed(doing, e.message().as_str());
    proof {
        let password::PasswordError::Argon2(t) = e;
        assert(m@ =~= whole@ + t@);
    }
    ApiError::Internal(m)
}

/// The hash that takes the place of the stored one when a user changes the
/// password: the new one has to be long enough, and the old one right.
pub fn change_password(old_password: &str, new_password: &str, stored: Option<&str>) -> (r: Result<
    String,
    ApiError,
>)
    ensures
        if new_password@.len() < 8 {
            r matches Err(e) && e@ == Failure::BadRequest("new password too short (min 8 chars)"@)
        } else {
            match stored {
                None => r matches Err(e) && e@ == Failure::Unauthorized,
                Some(h) => match password::password_check(old_password@, h@) {
                    Some(ok) => if ok {
                        match r {
                            Ok(n) => password::is_hash_of(new_password@, n@),
                            Err(e) => e@ is Internal && password::is_hash_fault(
                                "hash: argon2 error: "@,
                                new_password@,
                                e@->Internal_0,
                            ),
                        }
                    } else {
                        r matches Err(e) && e@ == Failure::Unauthorized
                    },
                    None => r matches Err(e) && e@ is Internal
                        && "verify: argon2 error: "@.is_prefix_of(e@->Internal_0),
                },
            }
        },
{
    match check_new_password(new_password) {
        Ok(_) => {},
        Err(e) => return Err(e),
    }
    match check_old_password(old_password, stored) {
        Ok(_) => {},
        Err(e) => return Err(e),
    }
    new_hash(new_password)
}

/// A hash of a password that is to be stored: what [`hash_reply`] makes of
/// hashing it.
pub fn new_hash(new_password: &str) -> (r: Result<String, ApiError>)
    ensures
        match r {
            Ok(n) => password::is_hash_of(new_password@, n@),
            Err(e) => e@ is Internal && password::is_hash_fault(
                "hash: argon2 error: "@,
                new_password@,
                e@->Internal_0,
            ),
        },
{
    hash_reply(password::hash_password(new_password))
}

/// What comes of hashing a password that is to be stored; a failure is an
/// internal one.
pub fn hash_reply(hashed: Result<String, password::PasswordError>) -> (r: Result<String, ApiError>)
    ensures
        match hashed {
            Ok(h) => r == Ok::<String, ApiError>(h),
            Err(p) => r matches Err(e) && e@ == Failure::Internal(
                "hash: argon2 error: "@ + p->Argon2_0@,
            ),
        },
{
    match hashed {
        Ok(h) => Ok(h),
        Err(e) => {
            proof {
                reveal_strlit("hash: ");
                reveal_strlit("argon2 error: ");
                reveal_strlit("hash: argon2 error: ");
                assert("hash: argon2 error: "@ =~= "hash: "@ + "argon2 error: "@);
            }
            Err(password_failure("hash: ", "hash: argon2 error: ", &e))
        },
    }
}

/// A display name is trimmed, not empty, and at most 64 characters long.
pub fn change_display_name(display_name: &str) -> (r: Result<String, ApiError>)
    ensures
        match r {
            Ok(n) => n@ == text::trimmed(display_name@) && 0 < n@.len() <= 64,
            Err(e) => if text::trimmed(display_name@).len() == 0 {
                e@ == Failure::BadRequest("display name cannot be empty"@)
            } else {
                text::trimmed(display_name@).len() > 64 && e@ == Failure::BadRequest(
                    "display name too long (max 64)"@,
                )
            },
        },
{
    let trimmed = text::trim(display_name);
    if text::is_blank(trimmed.as_str()) {
        return Err(api_error::bad_request("display name cannot be empty"));
    }
    if text::chars_of(trimmed.as_str()).len() > 64 {
        return Err(api_error::bad_request("display name too long (max 64)"));
    }
    Ok(trimmed)
}

// ---------------------------------------------------------------------------
// Watchlist
// ---------------------------------------------------------------------------

/// A series on the watchlist.
#[derive(Debug, Clone)]
pub struct WatchlistItem {
    pub id: u128,
    pub normalized_name: String,
    pub name: String,
    pub tmdb_id: Option<i64>,
    pub poster_path: Option<String>,
    pub backdrop_path: Option<String>,
    pub new_count: i64,
    pub last_visited_at: Option<i64>,
    pub created_at: i64,
}

/// The television collection of a followed series.
#[derive(Debug, Clone)]
pub struct WatchlistCollection {
    pub id: u128,
    pub display_title: String,
    pub tmdb_id: Option<i64>,
}

pub open spec fn or_id(a: Option<i64>, b: Option<i64>) -> Option<i64> {
    match a {
        Some(x) => Some(x),
        None => b,
    }
}

/// Title, TMDB entry and identifier of a followed series: those of its
/// collection, or its own while it has none.
pub fn watchlist_identity(f: &FollowRow, collection: Option<WatchlistCollection>) -> (r: (
    String,
    Option<i64>,
    u128,
))
    ensures
        r == match collection {
            Some(c) => (c.display_title, or_id(c.tmdb_id, f.tmdb_id), c.id),
            None => (f.name, f.tmdb_id, f.id),
        },
{
    match collection {
        Some(c) => {
            let tmdb_id = match c.tmdb_id {
                Some(t) => Some(t),
                None => f.tmdb_id,
            };
            (c.display_title, tmdb_id, c.id)
        },
        None => (f.name.clone(), f.tmdb_id, f.id),
    }
}

/// When the caller last had to do with a series: the later of the last visit
/// and the last time something of it was watched.
pub fn engaged_at(visited: Option<i64>, watched: Option<i64>) -> (r: Option<i64>)
    ensures
        r == match (visited, watched) {
            (Some(v), Some(w)) => Some(
                if v >= w {
                    v
                } else {
                    w
                },
            ),
            (Some(v), None) => Some(v),
            (None, w) => w,
        },
{
    match (visited, watched) {
        (Some(v), Some(w)) => Some(
            if v >= w {
                v
            } else {
                w
            },
        ),
        (Some(v), None) => Some(v),
        (None, w) => w,
    }
}

/// A series on the watchlist. `identity` is its title, TMDB entry and
/// identifier, `paths` its poster and backdrop; a failed count counts as
/// nothing new.
pub fn watchlist_item(
    f: FollowRow,
    identity: (String, Option<i64>, u128),
    paths: Option<(Option<String>, Option<String>)>,
    new_count: Option<i64>,
) -> (r: WatchlistItem)
    ensures
        r.id == identity.2,
        r.normalized_name == f.normalized_name,
        r.name == identity.0,
        r.tmdb_id == identity.1,
        r.poster_path == match paths {
            Some(p) => p.0,
            None => None,
        },
        r.backdrop_path == match paths {
            Some(p) => p.1,
            None => None,
        },
        r.new_count == match new_count {
            Some(n) => n,
            None => 0,
        },
        r.last_visited_at == f.last_visited_at,
        r.created_at == f.created_at,
{
    let (name, tmdb_id, id) = identity;
    let (poster_path, backdrop_path) = match paths {
        Some(p) => p,
        None => (None, None),
    };
    let count: i64 = match new_count {
        Some(n) => n,
        None => 0,
    };
    WatchlistItem {
        id,
        normalized_name: f.normalized_name,
        name,
        tmdb_id,
        poster_path,
        backdrop_path,
        new_count: count,
        last_visited_at: f.last_visited_at,
        created_at: f.created_at,
    }
}

// ---------------------------------------------------------------------------
// What to watch next
// ---------------------------------------------------------------------------

/// Something to go on watching.
#[derive(Debug, Clone)]
pub struct ContinueWatchingRow {
    pub infohash: String,
    pub torrent_name: String,
    pub tmdb_id: Option<i64>,
    pub tmdb_verified: bool,
    pub file_idx: i64,
    /// Bits of a double-precision number of seconds.
    pub position_bits: u64,
    pub duration_bits: Option<u64>,
    /// Milliseconds since the Unix epoch.
    pub last_watched_at: i64,
    pub completed: bool,
    pub audio_track_idx: Option<i64>,
    pub subtitle_track_idx: Option<i64>,
    pub kind: Option<String>,
    pub collection_id: Option<u128>,
    pub next_up: bool,
    pub season: Option<i64>,
    pub episode: Option<i64>,
    pub grabbable: bool,
}

/// An episode on disk that may come next. `finale` is the last episode of the
/// season that was watched, where that is known.
pub struct NextUpCandidate {
    pub row: ContinueWatchingRow,
    pub prev_season: i64,
    pub prev_episode: i64,
    pub next_season: i64,
    pub next_episode: i64,
    pub finale: Option<i64>,
}

/// Where the caller stopped in a series.
#[derive(Debug, Clone)]
pub struct Frontier {
    pub collection_id: u128,
    pub display_title: String,
    pub tmdb_id: Option<i64>,
    pub prev_season: i64,
    pub prev_episode: i64,
    pub last_watched_at: i64,
}

/// Whether an episode is the next to watch: the immediate successor, or the
/// opener of the next season after a confirmed finale.
pub open spec fn follows_watch_order(
    prev: (i64, i64),
    next: (i64, i64),
    finale: Option<i64>,
) -> bool {
    if next.0 == prev.0 {
        next.1 == prev.1 + 1
    } else {
        next.0 == prev.0 + 1 && next.1 == 1 && (finale matches Some(f) && prev.1 >= f)
    }
}

/// Whether an episode is the next to watch. Without confirmation that the
/// season is over, the next season is not offered.
pub fn next_up_follows_watch_order(
    prev: (i64, i64),
    next: (i64, i64),
    prev_season_finale: Option<i64>,
) -> (r: bool)
    ensures
        r == follows_watch_order(prev, next, prev_season_finale),
{
    let (prev_s, prev_e) = prev;
    let (next_s, next_e) = next;
    if next_s == prev_s {
        return prev_e < i64::MAX && next_e == prev_e + 1;
    }
    let finished = match prev_season_finale {
        Some(f) => prev_e >= f,
        None => false,
    };
    prev_s < i64::MAX && next_s == prev_s + 1 && next_e == 1 && finished
}

/// No episode is skipped: within a season the next one is the successor, and
/// another season is only entered at its start and past the known end of the
/// last.
pub proof fn no_episode_is_skipped(prev: (i64, i64), next: (i64, i64), finale: Option<i64>)
    requires
        follows_watch_order(prev, next, finale),
    ensures
        next == (prev.0, (prev.1 + 1) as i64) || (next == ((prev.0 + 1) as i64, 1i64) && finale
            is Some && prev.1 >= finale->0),
{
}

/// The rows of the candidates that are next to watch.
pub open spec fn next_up_rows(candidates: Seq<NextUpCandidate>) -> Seq<ContinueWatchingRow>
    decreases candidates.len(),
{
    if candidates.len() == 0 {
        seq![]
    } else {
        let before = next_up_rows(candidates.drop_last());
        let c = candidates.last();
        if follows_watch_order(
            (c.prev_season, c.prev_episode),
            (c.next_season, c.next_episode),
            c.finale,
        ) {
            before.push(c.row)
        } else {
            before
        }
    }
}

fn keep_next_up(candidates: Vec<NextUpCandidate>) -> (r: Vec<ContinueWatchingRow>)
    ensures
        r@ == next_up_rows(candidates@),
{
    let ghost all = candidates@;
    let mut out: Vec<ContinueWatchingRow> = Vec::new();
    assert(out@ =~= next_up_rows(all.take(0)));
    for c in it: candidates
        invariant
            it.seq() == all,
            out@ == next_up_rows(all.take(it.index())),
    {
        proof {
            assert(all.take(it.index() + 1).drop_last() =~= all.take(it.index()));
            assert(all.take(it.index() + 1).last() == c);
        }
        if next_up_follows_watch_order(
            (c.prev_season, c.prev_episode),
            (c.next_season, c.next_episode),
            c.finale,
        ) {
            out.push(c.row);
        }
    }
    assert(all.take(all.len() as int) =~= all);
    out
}

/// The first row, from `from` on, of a series.
pub open spec fn row_of(rows: Seq<ContinueWatchingRow>, collection: u128, from: int) -> Option<int>
    decreases rows.len() - from,
{
    if from < 0 || from >= rows.len() {
        None
    } else if rows[from].collection_id == Some(collection) {
        Some(from)
    } else {
        row_of(rows, collection, from + 1)
    }
}

/// `rows` with `r`: a series keeps one row, the more recent.
pub open spec fn merged_with(rows: Seq<ContinueWatchingRow>, r: ContinueWatchingRow) -> Seq<
    ContinueWatchingRow,
> {
    match r.collection_id {
        Some(c) => match row_of(rows, c, 0) {
            Some(i) => if r.last_watched_at > rows[i].last_watched_at {
                rows.update(i, r)
            } else {
                rows
            },
            None => rows.push(r),
        },
        None => rows.push(r),
    }
}

/// `base` with every row of `more` in turn.
pub open spec fn merged_all(base: Seq<ContinueWatchingRow>, more: Seq<ContinueWatchingRow>) -> Seq<
    ContinueWatchingRow,
>
    decreases more.len(),
{
    if more.len() == 0 {
        base
    } else {
        merged_with(merged_all(base, more.drop_last()), more.last())
    }
}

fn find_row(rows: &Vec<ContinueWatchingRow>, collection: u128) -> (r: Option<usize>)
    ensures
        match r {
            Some(i) => i < rows.len() && row_of(rows@, collection, 0) == Some(i as int),
            None => row_of(rows@, collection, 0) is None,
        },
{
    let mut i: usize = 0;
    while i < rows.len()
        invariant
            i <= rows.len(),
            row_of(rows@, collection, 0) == row_of(rows@, collection, i as int),
        decreases rows.len() - i,
    {
        let same = match rows[i].collection_id {
            Some(c) => c == collection,
            None => false,
        };
        if same {
            return Some(i);
        }
        i = i + 1;
    }
    None
}

fn merge_in(rows: &mut Vec<ContinueWatchingRow>, r: ContinueWatchingRow)
    ensures
        final(rows)@ == merged_with(old(rows)@, r),
{
    match r.collection_id {
        Some(c) => match find_row(rows, c) {
            Some(i) => {
                if r.last_watched_at > rows[i].last_watched_at {
                    rows.set(i, r);
                }
            },
            None => {
                rows.push(r);
            },
        },
        None => {
            rows.push(r);
        },
    }
}

fn merge_all(rows: &mut Vec<ContinueWatchingRow>, more: Vec<ContinueWatchingRow>)
    ensures
        final(rows)@ == merged_all(old(rows)@, more@),
{
    let ghost base = rows@;
    let ghost all = more@;
    assert(rows@ =~= merged_all(base, all.take(0)));
    for r in it: more
        invariant
            it.seq() == all,
            rows@ == merged_all(base, all.take(it.index())),
    {
        proof {
            assert(all.take(it.index() + 1).drop_last() =~= all.take(it.index()));
            assert(all.take(it.index() + 1).last() == r);
        }
        merge_in(rows, r);
    }
    assert(all.take(all.len() as int) =~= all);
}

/// The tile that offers to fetch the next episode of a series.
pub open spec fn is_grabbable_tile(
    r: ContinueWatchingRow,
    f: Frontier,
    season: i64,
    episode: i64,
) -> bool {
    &&& r.infohash@ == ""@
    &&& r.torrent_name == f.display_title
    &&& r.tmdb_id == f.tmdb_id
    &&& r.tmdb_verified == (f.tmdb_id is Some)
    &&& r.file_idx == 0
    &&& r.position_bits == 0
    &&& r.duration_bits is None
    &&& r.last_watched_at == f.last_watched_at
    &&& !r.completed
    &&& r.audio_track_idx is None
    &&& r.subtitle_track_idx is None
    &&& text::opt_view(r.kind) == Some("tv"@)
    &&& r.collection_id == Some(f.collection_id)
    &&& r.next_up
    &&& r.season == Some(season)
    &&& r.episode == Some(episode)
    &&& r.grabbable
}

/// Which frontiers get a tile, and for which episode: those of series that
/// have none yet, where the next episode is known to have aired.
pub open spec fn grabbable_from(
    rows: Seq<ContinueWatchingRow>,
    frontiers: Seq<(Frontier, Option<(i64, i64)>)>,
) -> Seq<(Frontier, (i64, i64))>
    decreases frontiers.len(),
{
    if frontiers.len() == 0 {
        seq![]
    } else {
        let before = grabbable_from(rows, frontiers.drop_last());
        let (f, next) = frontiers.last();
        if row_of(rows, f.collection_id, 0) is Some || taken(before, f.collection_id) {
            before
        } else {
            match next {
                Some(n) => before.push((f, n)),
                None => before,
            }
        }
    }
}

pub open spec fn taken(tiles: Seq<(Frontier, (i64, i64))>, collection: u128) -> bool {
    exists|i: int| 0 <= i < tiles.len() && (#[trigger] tiles[i]).0.collection_id == collection
}

/// `rows` are `base` followed by a tile for each of `tiles`.
pub open spec fn extended_by(
    rows: Seq<ContinueWatchingRow>,
    base: Seq<ContinueWatchingRow>,
    tiles: Seq<(Frontier, (i64, i64))>,
) -> bool {
    &&& rows.len() == base.len() + tiles.len()
    &&& rows.take(base.len() as int) == base
    &&& forall|i: int|
        0 <= i < tiles.len() ==> is_grabbable_tile(
            #[trigger] rows[base.len() + i],
            tiles[i].0,
            tiles[i].1.0,
            tiles[i].1.1,
        )
}

proof fn lemma_row_of(rows: Seq<ContinueWatchingRow>, collection: u128, from: int)
    requires
        0 <= from,
    ensures
        match row_of(rows, collection, from) {
            Some(i) => from <= i < rows.len() && rows[i].collection_id == Some(collection),
            None => forall|j: int|
                from <= j < rows.len() ==> (#[trigger] rows[j]).collection_id != Some(collection),
        },
    decreases rows.len() - from,
{
    if from < rows.len() && rows[from].collection_id != Some(collection) {
        lemma_row_of(rows, collection, from + 1);
    }
}

/// Whether a series has a tile. Nothing has to be asked for one that does.
pub fn has_tile(rows: &Vec<ContinueWatchingRow>, collection: u128) -> (r: bool)
    ensures
        r == exists|i: int|
            0 <= i < rows@.len() && (#[trigger] rows@[i]).collection_id == Some(collection),
{
    proof {
        lemma_row_of(rows@, collection, 0);
    }
    find_row(rows, collection).is_some()
}

/// Adds a tile for every series without one whose next episode is known to
/// have aired; each frontier comes with that episode.
pub fn append_grabbable_next_up(
    rows: &mut Vec<ContinueWatchingRow>,
    frontiers: Vec<(Frontier, Option<(i64, i64)>)>,
)
    ensures
        extended_by(final(rows)@, old(rows)@, grabbable_from(old(rows)@, frontiers@)),
{
    let ghost base = rows@;
    let ghost all = frontiers@;
    assert(rows@.take(base.len() as int) =~= base);
    assert(grabbable_from(base, all.take(0)) =~= seq![]);
    for e in it: frontiers
        invariant
            it.seq() == all,
            extended_by(rows@, base, grabbable_from(base, all.take(it.index()))),
    {
        let ghost tiles = grabbable_from(base, all.take(it.index()));
        proof {
            assert(all.take(it.index() + 1).drop_last() =~= all.take(it.index()));
            assert(all.take(it.index() + 1).last() == e);
        }
        let (f, next) = e;
        let present = find_row(rows, f.collection_id).is_some();
        proof {
            lemma_row_of(rows@, f.collection_id, 0);
            lemma_row_of(base, f.collection_id, 0);
            if let Some(i) = row_of(rows@, f.collection_id, 0) {
                if i < base.len() {
                    assert(rows@.take(base.len() as int)[i] == base[i]);
                } else {
                    let k = i - base.len();
                    assert(rows@[base.len() + k] == rows@[i]);
                    assert(tiles[k].0.collection_id == f.collection_id);
                }
            } else {
                if let Some(i) = row_of(base, f.collection_id, 0) {
                    assert(rows@.take(base.len() as int)[i] == rows@[i]);
                }
                if taken(tiles, f.collection_id) {
                    let k = choose|k: int|
                        0 <= k < tiles.len() && (#[trigger] tiles[k]).0.collection_id
                            == f.collection_id;
                    assert(is_grabbable_tile(
                        rows@[base.len() + k],
                        tiles[k].0,
                        tiles[k].1.0,
                        tiles[k].1.1,
                    ));
                }
            }
            assert(present == (row_of(base, f.collection_id, 0) is Some || taken(
                tiles,
                f.collection_id,
            )));
        }
        if !present {
            match next {
                Some((season, episode)) => {
                    let ghost before = rows@;
                    let verified = f.tmdb_id.is_some();
                    let ghost f0 = f;
                    rows.push(
                        ContinueWatchingRow {
                            infohash: "".to_string(),
                            torrent_name: f.display_title,
                            tmdb_id: f.tmdb_id,
                            tmdb_verified: verified,
                            file_idx: 0,
                            position_bits: 0,
                            duration_bits: None,
                            last_watched_at: f.last_watched_at,
                            completed: false,
                            audio_track_idx: None,
                            subtitle_track_idx: None,
                            kind: Some("tv".to_string()),
                            collection_id: Some(f.collection_id),
                            next_up: true,
                            season: Some(season),
                            episode: Some(episode),
                            grabbable: true,
                        },
                    );
                    proof {
                        let t1 = grabbable_from(base, all.take(it.index() + 1));
                        assert(t1 == tiles.push((f0, (season, episode))));
                        assert(rows@.take(base.len() as int) =~= before.take(base.len() as int));
                        assert forall|i: int| 0 <= i < t1.len() implies is_grabbable_tile(
                            #[trigger] rows@[base.len() + i],
                            t1[i].0,
                            t1[i].1.0,
                            t1[i].1.1,
                        ) by {
                            if i < tiles.len() {
                                assert(rows@[base.len() + i] == before[base.len() + i]);
                            }
                        }
                    }
                },
                None => {},
            }
        }
    }
    assert(all.take(all.len() as int) =~= all);
}

impl Ranked for ContinueWatchingRow {
    /// Most recently watched first.
    open spec fn before(self, other: Self) -> bool {
        self.last_watched_at > other.last_watched_at
    }

    proof fn before_is_strict_weak_order(a: Self, b: Self, c: Self) {
    }

    fn sorts_before(&self, other: &Self) -> (r: bool) {
        self.last_watched_at > other.last_watched_at
    }
}

/// Number of tiles on the shelf.
pub const SHELF_SIZE: usize = 12;

/// The rows of the shelf before it is filled up: what was stopped half-way,
/// and the next episodes on disk, one row per series.
pub open spec fn owned_rows(resume: Seq<ContinueWatchingRow>, candidates: Seq<NextUpCandidate>) -> Seq<
    ContinueWatchingRow,
> {
    merged_all(merged_all(Seq::empty(), resume), next_up_rows(candidates))
}

pub open spec fn first_rows(rows: Seq<ContinueWatchingRow>) -> Seq<ContinueWatchingRow> {
    if rows.len() > SHELF_SIZE {
        rows.take(SHELF_SIZE as int)
    } else {
        rows
    }
}

/// The rows of a shelf, one per series, before anything to fetch is added.
pub fn continue_watching_owned(
    resume: Vec<ContinueWatchingRow>,
    candidates: Vec<NextUpCandidate>,
) -> (r: Vec<ContinueWatchingRow>)
    ensures
        r@ == owned_rows(resume@, candidates@),
{
    let mut merged: Vec<ContinueWatchingRow> = Vec::new();
    assert(merged@ =~= Seq::empty());
    merge_all(&mut merged, resume);
    let next_up = keep_next_up(candidates);
    merge_all(&mut merged, next_up);
    merged
}

/// The most recent of the rows first, cut to the size of the shelf.
pub fn shelf(rows: Vec<ContinueWatchingRow>) -> (r: Vec<ContinueWatchingRow>)
    ensures
        r@ == first_rows(order::sorted(rows@)),
{
    let ghost all = rows@;
    let mut sorted = order::sort(rows);
    if sorted.len() > SHELF_SIZE {
        sorted.truncate(SHELF_SIZE);
        assert(sorted@ =~= order::sorted(all).take(SHELF_SIZE as int));
    }
    sorted
}

/// The shelf: the most recent rows first, cut to its size. `frontiers` are
/// given when the caller wants episodes that have to be fetched.
pub fn continue_watching(
    resume: Vec<ContinueWatchingRow>,
    candidates: Vec<NextUpCandidate>,
    frontiers: Option<Vec<(Frontier, Option<(i64, i64)>)>>,
) -> (r: Vec<ContinueWatchingRow>)
    ensures
        match frontiers {
            None => r@ == first_rows(order::sorted(owned_rows(resume@, candidates@))),
            Some(f) => exists|rows: Seq<ContinueWatchingRow>|
                #[trigger] extended_by(
                    rows,
                    owned_rows(resume@, candidates@),
                    grabbable_from(owned_rows(resume@, candidates@), f@),
                ) && r@ == first_rows(order::sorted(rows)),
        },
        one_per_series(r@),
{
    let ghost (stopped, next) = (resume@, candidates@);
    let mut merged = continue_watching_owned(resume, candidates);
    match frontiers {
        Some(f) => {
            proof {
                series_appears_once(stopped, next, f@);
            }
            append_grabbable_next_up(&mut merged, f);
        },
        None => {
            proof {
                series_appears_once(stopped, next, Seq::empty());
            }
        },
    }
    shelf(merged)
}

/// No two rows belong to one series.
pub open spec fn one_per_series(rows: Seq<ContinueWatchingRow>) -> bool {
    forall|i: int, j: int|
        0 <= i < j < rows.len() && rows[i].collection_id is Some ==> (
        #[trigger] rows[i]).collection_id != (#[trigger] rows[j]).collection_id
}

proof fn lemma_merge_keeps_one(rows: Seq<ContinueWatchingRow>, r: ContinueWatchingRow)
    requires
        one_per_series(rows),
    ensures
        one_per_series(merged_with(rows, r)),
{
    if let Some(c) = r.collection_id {
        lemma_row_of(rows, c, 0);
    }
}

proof fn lemma_merge_all_keeps_one(base: Seq<ContinueWatchingRow>, more: Seq<ContinueWatchingRow>)
    requires
        one_per_series(base),
    ensures
        one_per_series(merged_all(base, more)),
    decreases more.len(),
{
    if more.len() > 0 {
        lemma_merge_all_keeps_one(base, more.drop_last());
        lemma_merge_keeps_one(merged_all(base, more.drop_last()), more.last());
    }
}

/// What is on disk keeps its tile: nothing to fetch is offered for a series
/// that has one, and never twice for one series.
pub proof fn owned_tile_wins(
    rows: Seq<ContinueWatchingRow>,
    frontiers: Seq<(Frontier, Option<(i64, i64)>)>,
)
    ensures
        forall|i: int|
            0 <= i < grabbable_from(rows, frontiers).len() ==> row_of(
                rows,
                (#[trigger] grabbable_from(rows, frontiers)[i]).0.collection_id,
                0,
            ) is None,
        forall|i: int, j: int|
            0 <= i < j < grabbable_from(rows, frontiers).len() ==> (#[trigger] grabbable_from(
                rows,
                frontiers,
            )[i]).0.collection_id != (#[trigger] grabbable_from(
                rows,
                frontiers,
            )[j]).0.collection_id,
    decreases frontiers.len(),
{
    if frontiers.len() > 0 {
        owned_tile_wins(rows, frontiers.drop_last());
    }
}

proof fn lemma_owned_once(resume: Seq<ContinueWatchingRow>, candidates: Seq<NextUpCandidate>)
    ensures
        one_per_series(owned_rows(resume, candidates)),
{
    lemma_merge_all_keeps_one(Seq::empty(), resume);
    lemma_merge_all_keeps_one(merged_all(Seq::empty(), resume), next_up_rows(candidates));
}

proof fn lemma_extended_once(
    rows: Seq<ContinueWatchingRow>,
    base: Seq<ContinueWatchingRow>,
    frontiers: Seq<(Frontier, Option<(i64, i64)>)>,
)
    requires
        one_per_series(base),
        extended_by(rows, base, grabbable_from(base, frontiers)),
    ensures
        one_per_series(rows),
{
    let tiles = grabbable_from(base, frontiers);
    let n = base.len() as int;
    owned_tile_wins(base, frontiers);
    assert forall|i: int, j: int|
        0 <= i < j < rows.len() && rows[i].collection_id is Some implies (
    #[trigger] rows[i]).collection_id != (#[trigger] rows[j]).collection_id by {
        if i < n {
            assert(rows.take(n)[i] == base[i]);
        } else {
            assert(rows[n + (i - n)].collection_id == Some(tiles[i - n].0.collection_id));
        }
        if j < n {
            assert(rows.take(n)[j] == base[j]);
        } else {
            let c = tiles[j - n].0.collection_id;
            assert(rows[n + (j - n)].collection_id == Some(c));
            lemma_row_of(base, c, 0);
        }
    }
}

proof fn lemma_placed_once(rows: Seq<ContinueWatchingRow>, r: ContinueWatchingRow)
    requires
        one_per_series(rows),
        r.collection_id is Some ==> forall|i: int|
            0 <= i < rows.len() ==> (#[trigger] rows[i]).collection_id != r.collection_id,
    ensures
        one_per_series(order::placed(rows, r)),
        forall|i: int|
            0 <= i < order::placed(rows, r).len() ==> (#[trigger] order::placed(rows, r)[i]) == r
                || rows.contains(order::placed(rows, r)[i]),
    decreases rows.len(),
{
    let p = order::placed(rows, r);
    if rows.len() == 0 || !r.before(rows.last()) {
        assert forall|i: int| 0 <= i < p.len() implies (#[trigger] p[i]) == r || rows.contains(
            p[i],
        ) by {
            if i < rows.len() {
                assert(rows[i] == p[i]);
            }
        }
    } else {
        let t = rows.drop_last();
        lemma_placed_once(t, r);
        let q = order::placed(t, r);
        assert forall|i: int| 0 <= i < p.len() implies (#[trigger] p[i]) == r || rows.contains(
            p[i],
        ) by {
            if i < q.len() {
                assert(p[i] == q[i]);
                if q[i] != r {
                    let k = choose|k: int| 0 <= k < t.len() && t[k] == q[i];
                    assert(rows[k] == q[i]);
                }
            } else {
                assert(p[i] == rows[rows.len() - 1]);
            }
        }
        assert forall|i: int, j: int|
            0 <= i < j < p.len() && p[i].collection_id is Some implies (
        #[trigger] p[i]).collection_id != (#[trigger] p[j]).collection_id by {
            assert(p[i] == q[i]);
            if j < q.len() {
                assert(p[j] == q[j]);
            } else if q[i] != r {
                let k = choose|k: int| 0 <= k < t.len() && t[k] == q[i];
                assert(rows[k] == q[i]);
                assert(p[j] == rows[rows.len() - 1]);
            } else {
                assert(p[j] == rows[rows.len() - 1]);
            }
        }
    }
}

proof fn lemma_sorted_once(rows: Seq<ContinueWatchingRow>)
    requires
        one_per_series(rows),
    ensures
        one_per_series(order::sorted(rows)),
        forall|i: int|
            0 <= i < order::sorted(rows).len() ==> rows.contains(
                #[trigger] order::sorted(rows)[i],
            ),
    decreases rows.len(),
{
    if rows.len() > 0 {
        let t = rows.drop_last();
        let s = order::sorted(t);
        let r = rows.last();
        lemma_sorted_once(t);
        assert forall|i: int| 0 <= i < s.len() implies rows.contains(#[trigger] s[i]) && (
        r.collection_id is Some ==> s[i].collection_id != r.collection_id) by {
            let k = choose|k: int| 0 <= k < t.len() && t[k] == s[i];
            assert(rows[k] == s[i]);
            assert(r == rows[rows.len() - 1]);
        }
        lemma_placed_once(s, r);
        let p = order::placed(s, r);
        assert forall|i: int| 0 <= i < p.len() implies rows.contains(#[trigger] p[i]) by {
            if p[i] != r {
                let k = choose|k: int| 0 <= k < s.len() && s[k] == p[i];
                assert(rows.contains(s[k]));
            } else {
                assert(rows[rows.len() - 1] == r);
            }
        }
    }
}

/// A series has one tile on the shelf, whatever the rows were, and whether or
/// not episodes to fetch are offered.
pub proof fn series_appears_once(
    resume: Seq<ContinueWatchingRow>,
    candidates: Seq<NextUpCandidate>,
    frontiers: Seq<(Frontier, Option<(i64, i64)>)>,
)
    ensures
        one_per_series(first_rows(order::sorted(owned_rows(resume, candidates)))),
        forall|rows: Seq<ContinueWatchingRow>| #[trigger]
            extended_by(
                rows,
                owned_rows(resume, candidates),
                grabbable_from(owned_rows(resume, candidates), frontiers),
            ) ==> one_per_series(first_rows(order::sorted(rows))),
{
    let base = owned_rows(resume, candidates);
    lemma_owned_once(resume, candidates);
    lemma_sorted_once(base);
    assert forall|rows: Seq<ContinueWatchingRow>| #[trigger]
        extended_by(rows, base, grabbable_from(base, frontiers)) implies one_per_series(
        first_rows(order::sorted(rows)),
    ) by {
        lemma_extended_once(rows, base, frontiers);
        lemma_sorted_once(rows);
    }
}

/// A tile as a client sees it.
#[derive(Debug, Clone)]
pub struct ContinueWatchingItem {
    pub infohash: String,
    pub torrent_name: String,
    pub tmdb_id: Option<i64>,
    pub tmdb_verified: bool,
    pub kind: Option<MediaKind>,
    pub file_idx: i64,
    pub file_path: Option<String>,
    pub position_bits: u64,
    pub duration_bits: Option<u64>,
    pub last_watched_at: i64,
    pub completed: bool,
    pub collection_id: Option<u128>,
    pub next_up: bool,
    pub season: Option<i64>,
    pub episode: Option<i64>,
    pub grabbable: bool,
}

pub open spec fn kind_in(kind: Option<String>) -> Option<MediaKind> {
    match kind {
        Some(k) => search::kind_of_word(k@),
        None => None,
    }
}

pub(crate) fn stored_kind(kind: &Option<String>) -> (r: Option<MediaKind>)
    ensures
        r == kind_in(*kind),
{
    match kind {
        Some(k) => MediaKind::from_wire(k.as_str()),
        None => None,
    }
}

pub fn continue_watching_item(row: ContinueWatchingRow, file_path: Option<String>) -> (r:
    ContinueWatchingItem)
    ensures
        r == (ContinueWatchingItem {
            infohash: row.infohash,
            torrent_name: row.torrent_name,
            tmdb_id: row.tmdb_id,
            tmdb_verified: row.tmdb_verified,
            kind: kind_in(row.kind),
            file_idx: row.file_idx,
            file_path,
            position_bits: row.position_bits,
            duration_bits: row.duration_bits,
            last_watched_at: row.last_watched_at,
            completed: row.completed,
            collection_id: row.collection_id,
            next_up: row.next_up,
            season: row.season,
            episode: row.episode,
            grabbable: row.grabbable,
        }),
{
    let kind = stored_kind(&row.kind);
    ContinueWatchingItem {
        infohash: row.infohash,
        torrent_name: row.torrent_name,
        tmdb_id: row.tmdb_id,
        tmdb_verified: row.tmdb_verified,
        kind,
        file_idx: row.file_idx,
        file_path,
        position_bits: row.position_bits,
        duration_bits: row.duration_bits,
        last_watched_at: row.last_watched_at,
        completed: row.completed,
        collection_id: row.collection_id,
        next_up: row.next_up,
        season: row.season,
        episode: row.episode,
        grabbable: row.grabbable,
    }
}

/// The first file, from `from` on, with an index.
pub open spec fn path_of_file(files: Seq<FileEntry>, file_idx: i64, from: int) -> Option<Seq<char>>
    decreases files.len() - from,
{
    if from < 0 || from >= files.len() {
        None
    } else if files[from].index == file_idx {
        Some(files[from].path@)
    } else {
        path_of_file(files, file_idx, from + 1)
    }
}

/// Path of a file of a torrent, where the engine knows the torrent.
pub fn resolve_file_path(files: Option<&Vec<FileEntry>>, file_idx: i64) -> (r: Option<String>)
    ensures
        text::opt_view(r) == match files {
            Some(f) => path_of_file(f@, file_idx, 0),
            None => None,
        },
{
    match files {
        None => None,
        Some(f) => {
            let mut i: usize = 0;
            while i < f.len()
                invariant
                    files == Some(f),
                    i <= f.len(),
                    path_of_file(f@, file_idx, 0) == path_of_file(f@, file_idx, i as int),
                decreases f.len() - i,
            {
                if file_idx >= 0 && f[i].index as u64 == file_idx as u64 {
                    return Some(f[i].path.clone());
                }
                i = i + 1;
            }
            None
        },
    }
}

// ---------------------------------------------------------------------------
// Episodes that have aired
// ---------------------------------------------------------------------------

/// The highest episode among the first `n`.
pub open spec fn top_episode(eps: Seq<EpisodeMetadata>, n: int) -> Option<u32>
    decreases n,
{
    if n <= 0 || n > eps.len() {
        None
    } else {
        match top_episode(eps, n - 1) {
            Some(e) => if e > eps[n - 1].episode {
                Some(e)
            } else {
                Some(eps[n - 1].episode)
            },
            None => Some(eps[n - 1].episode),
        }
    }
}

/// The first entry, from `from` on, of an episode.
pub open spec fn entry_of(eps: Seq<EpisodeMetadata>, episode: int, from: int) -> Option<
    EpisodeMetadata,
>
    decreases eps.len() - from,
{
    if from < 0 || from >= eps.len() {
        None
    } else if eps[from].episode == episode {
        Some(eps[from])
    } else {
        entry_of(eps, episode, from + 1)
    }
}

/// An episode has aired when it has a date that is not after today's; both are
/// written year first.
pub open spec fn has_aired(e: EpisodeMetadata, today: Seq<char>) -> bool {
    e.air_date matches Some(d) && !text::text_lt(today, d@)
}

/// Number of the last episode that is listed for a season.
pub fn season_finale_episode(eps: &Vec<EpisodeMetadata>) -> (r: Option<i64>)
    ensures
        match r {
            Some(n) => top_episode(eps@, eps@.len() as int) matches Some(e) && e == n,
            None => top_episode(eps@, eps@.len() as int) is None,
        },
{
    let mut best: Option<u32> = None;
    for i in 0..eps.len()
        invariant
            best == top_episode(eps@, i as int),
    {
        let e: u32 = eps[i].episode;
        best = match best {
            Some(b) => {
                if b > e {
                    Some(b)
                } else {
                    Some(e)
                }
            },
            None => Some(e),
        };
    }
    match best {
        Some(b) => Some(b as i64),
        None => None,
    }
}

fn aired(eps: &Vec<EpisodeMetadata>, episode: i64, today: &str) -> (r: bool)
    ensures
        r == (entry_of(eps@, episode as int, 0) is Some && has_aired(
            entry_of(eps@, episode as int, 0)->0,
            today@,
        )),
{
    let mut i: usize = 0;
    while i < eps.len()
        invariant
            i <= eps.len(),
            entry_of(eps@, episode as int, 0) == entry_of(eps@, episode as int, i as int),
        decreases eps.len() - i,
    {
        if eps[i].episode as i64 == episode {
            return match &eps[i].air_date {
                Some(d) => !text::sorts_before(today, d.as_str()),
                None => false,
            };
        }
        i = i + 1;
    }
    false
}

/// The next episode of a series, as far as one season tells.
#[derive(Debug, Clone, Copy)]
pub enum NextAired {
    Known(Option<(i64, i64)>),
    /// The season is over: its successor tells.
    AskNextSeason,
}

/// The next episode after (`season`, `episode`) by the listing of that
/// season: its successor, if it has aired, or the next season's opener. A
/// season of which nothing is listed tells nothing.
pub fn next_aired_episode(eps: &Vec<EpisodeMetadata>, season: i64, episode: i64, today: &str) -> (r:
    NextAired)
    ensures
        r == match top_episode(eps@, eps@.len() as int) {
            None => NextAired::Known(None),
            Some(finale) => if episode < finale {
                if entry_of(eps@, episode + 1, 0) is Some && has_aired(
                    entry_of(eps@, episode + 1, 0)->0,
                    today@,
                ) {
                    NextAired::Known(Some((season, (episode + 1) as i64)))
                } else {
                    NextAired::Known(None)
                }
            } else {
                NextAired::AskNextSeason
            },
        },
{
    match season_finale_episode(eps) {
        None => NextAired::Known(None),
        Some(finale) => {
            if episode < finale {
                if aired(eps, episode + 1, today) {
                    NextAired::Known(Some((season, episode + 1)))
                } else {
                    NextAired::Known(None)
                }
            } else {
                NextAired::AskNextSeason
            }
        },
    }
}

/// The opener of the season after `season`, if it has aired.
pub fn next_season_opener(eps: &Vec<EpisodeMetadata>, season: i64, today: &str) -> (r: Option<
    (i64, i64),
>)
    requires
        season < i64::MAX,
    ensures
        r == if entry_of(eps@, 1, 0) is Some && has_aired(entry_of(eps@, 1, 0)->0, today@) {
            Some(((season + 1) as i64, 1i64))
        } else {
            None
        },
{
    if aired(eps, 1, today) {
        Some((season + 1, 1))
    } else {
        None
    }
}

// ---------------------------------------------------------------------------
// Hiding
// ---------------------------------------------------------------------------

/// What to hide from the shelf.
#[derive(Debug, Clone)]
pub struct DismissCwRequest {
    pub collection_id: Option<u128>,
    pub infohash: Option<String>,
    pub file_idx: Option<i64>,
}

/// What hiding from the shelf does.
pub enum DismissAction {
    /// Hide a whole series, if it is there.
    Collection(u128),
    /// Forget the progress of one file.
    File(String, i64),
}

/// What hiding from the shelf does: a series goes before a file.
pub fn dismiss_continue_watching(body: DismissCwRequest) -> (r: Result<DismissAction, ApiError>)
    ensures
        match body.collection_id {
            Some(c) => r == Ok::<DismissAction, ApiError>(DismissAction::Collection(c)),
            None => if body.infohash is Some && body.file_idx is Some {
                &&& r matches Ok(DismissAction::File(h, i))
                &&& h@ == text::lowered(body.infohash->0@)
                &&& i == body.file_idx->0
            } else {
                r matches Err(e) && e@ == Failure::BadRequest(
                    "need collection_id or (infohash, file_idx)"@,
                )
            },
        },
{
    match body.collection_id {
        Some(c) => Ok(DismissAction::Collection(c)),
        None => match (body.infohash, body.file_idx) {
            (Some(h), Some(i)) => Ok(
                DismissAction::File(text::to_ascii_lowercase(h.as_str()), i),
            ),
            _ => Err(api_error::bad_request("need collection_id or (infohash, file_idx)")),
        },
    }
}

/// What to hide of what used to be there.
#[derive(Debug, Clone)]
pub struct DismissGoneRequest {
    pub collection_id: Option<u128>,
    pub infohash: Option<String>,
}

/// What hiding something that used to be there does.
pub enum DismissGoneAction {
    Collection(u128),
    Release(String),
}

pub fn dismiss_gone(body: DismissGoneRequest) -> (r: Result<DismissGoneAction, ApiError>)
    ensures
        match body.collection_id {
            Some(c) => r == Ok::<DismissGoneAction, ApiError>(DismissGoneAction::Collection(c)),
            None => match body.infohash {
                Some(h) => r matches Ok(DismissGoneAction::Release(x)) && x@ == text::lowered(h@),
                None => r matches Err(e) && e@ == Failure::BadRequest(
                    "need collection_id or infohash"@,
                ),
            },
        },
{
    match body.collection_id {
        Some(c) => Ok(DismissGoneAction::Collection(c)),
        None => match body.infohash {
            Some(h) => Ok(DismissGoneAction::Release(text::to_ascii_lowercase(h.as_str()))),
            None => Err(api_error::bad_request("need collection_id or infohash")),
        },
    }
}

// ---------------------------------------------------------------------------
// History
// ---------------------------------------------------------------------------

pub open spec fn clamped(n: i64, low: i64, high: i64) -> i64 {
    if n < low {
        low
    } else if n > high {
        high
    } else {
        n
    }
}

/// `n` or, when it lies outside, the nearer end of the interval.
pub fn clamp(n: i64, low: i64, high: i64) -> (r: i64)
    requires
        low <= high,
    ensures
        r == clamped(n, low, high),
{
    if n < low {
        low
    } else if n > high {
        high
    } else {
        n
    }
}

/// Which rows of the history a request asks for: how many, between 1 and 200
/// and 50 unless said, and from where.
pub fn history_page(limit: Option<i64>, offset: Option<i64>) -> (r: (i64, i64))
    ensures
        r.0 == clamped(
            match limit {
                Some(n) => n,
                None => 50,
            },
            1,
            200,
        ),
        r.1 == match offset {
            Some(n) => if n > 0 {
                n
            } else {
                0
            },
            None => 0,
        },
{
    let n: i64 = match limit {
        Some(n) => n,
        None => 50,
    };
    let o: i64 = match offset {
        Some(o) => {
            if o > 0 {
                o
            } else {
                0
            }
        },
        None => 0,
    };
    (clamp(n, 1, 200), o)
}

/// A row of the history, as stored.
#[derive(Debug, Clone)]
pub struct HistoryRow {
    pub infohash: String,
    pub torrent_name: String,
    pub tmdb_id: Option<i64>,
    pub tmdb_verified: bool,
    pub kind: Option<String>,
    pub file_idx: i64,
    pub position_bits: u64,
    pub duration_bits: Option<u64>,
    pub last_watched_at: i64,
    pub completed: bool,
    /// The torrent is gone.
    pub deleted: bool,
    pub collection_id: Option<u128>,
    pub collection_title: Option<String>,
    pub season: Option<i64>,
    pub episode: Option<i64>,
    pub absolute_episode: Option<i64>,
    pub source_provider: Option<String>,
    pub source_external_id: Option<String>,
}

/// A row of the history as a client sees it.
#[derive(Debug, Clone)]
pub struct HistoryItem {
    pub infohash: String,
    pub torrent_name: String,
    pub tmdb_id: Option<i64>,
    pub tmdb_verified: bool,
    pub kind: Option<MediaKind>,
    pub file_idx: i64,
    pub file_path: Option<String>,
    pub position_bits: u64,
    pub duration_bits: Option<u64>,
    pub last_watched_at: i64,
    pub completed: bool,
    pub deleted: bool,
    pub collection_id: Option<u128>,
    pub collection_title: Option<String>,
    pub season: Option<i64>,
    pub episode: Option<i64>,
    pub absolute_episode: Option<i64>,
    pub source_provider: Option<String>,
    pub source_external_id: Option<String>,
}

pub fn history_item(row: HistoryRow, file_path: Option<String>) -> (r: HistoryItem)
    ensures
        r == (HistoryItem {
            infohash: row.infohash,
            torrent_name: row.torrent_name,
            tmdb_id: row.tmdb_id,
            tmdb_verified: row.tmdb_verified,
            kind: kind_in(row.kind),
            file_idx: row.file_idx,
            file_path,
            position_bits: row.position_bits,
            duration_bits: row.duration_bits,
            last_watched_at: row.last_watched_at,
            completed: row.completed,
            deleted: row.deleted,
            collection_id: row.collection_id,
            collection_title: row.collection_title,
            season: row.season,
            episode: row.episode,
            absolute_episode: row.absolute_episode,
            source_provider: row.source_provider,
            source_external_id: row.source_external_id,
        }),
{
    let kind = stored_kind(&row.kind);
    HistoryItem {
        infohash: row.infohash,
        torrent_name: row.torrent_name,
        tmdb_id: row.tmdb_id,
        tmdb_verified: row.tmdb_verified,
        kind,
        file_idx: row.file_idx,
        file_path,
        position_bits: row.position_bits,
        duration_bits: row.duration_bits,
        last_watched_at: row.last_watched_at,
        completed: row.completed,
        deleted: row.deleted,
        collection_id: row.collection_id,
        collection_title: row.collection_title,
        season: row.season,
        episode: row.episode,
        absolute_episode: row.absolute_episode,
        source_provider: row.source_provider,
        source_external_id: row.source_external_id,
    }
}

// ---------------------------------------------------------------------------
// Laws
// ---------------------------------------------------------------------------

/// A new password passes exactly with eight characters or more, in whatever
/// way it is given.
pub proof fn password_length_decides(new: &str, r: Result<(), ApiError>)
    requires
        call_ensures(check_new_password, (new,), r),
    ensures
        r is Ok == (new@.len() >= 8),
        r matches Err(e) ==> e@ is BadRequest,
{
}

/// The old password has to be right before anything is changed: where the
/// check of it does not pass, no hash comes back.
pub proof fn wrong_password_changes_nothing(
    old_password: &str,
    new_password: &str,
    stored: Option<&str>,
    check: Result<(), ApiError>,
    r: Result<String, ApiError>,
)
    requires
        call_ensures(check_old_password, (old_password, stored), check),
        call_ensures(change_password, (old_password, new_password, stored), r),
    ensures
        r is Ok ==> check is Ok && stored is Some && new_password@.len() >= 8,
        check is Ok == (stored matches Some(h) && password::password_check(old_password@, h@)
            == Some(true)),
        stored matches Some(h) && password::password_check(old_password@, h@) == Some(false)
            ==> check->Err_0@ == Failure::Unauthorized,
        stored is None ==> check->Err_0@ == Failure::Unauthorized,
{
}

/// A display name keeps what was typed between the white space around it, and
/// is kept from one character up to 64.
pub proof fn display_name_is_what_was_typed(typed: &str, bare: String, r: Result<String, ApiError>)
    requires
        call_ensures(text::trim, (typed,), bare),
        call_ensures(change_display_name, (typed,), r),
    ensures
        r is Ok == (1 <= bare@.len() <= 64),
        r matches Ok(n) ==> n@ == bare@,
{
}

/// Whoever is gone is not signed in, and whoever is there sees their own
/// profile.
pub proof fn profile_is_ones_own(user: Option<User>, r: Result<MeResponse, ApiError>)
    requires
        call_ensures(me, (user,), r),
    ensures
        user is Some == r is Ok,
        r matches Ok(m) ==> m.id == user->0.id.0 && m.email == user->0.email && m.display_name
            == user->0.display_name && m.is_admin == user->0.is_admin,
        r matches Err(e) ==> e@ is Unauthorized,
{
}

/// The collection of a followed series speaks for it; only the TMDB entry falls
/// back on the follow.
pub proof fn collection_speaks_for_the_series(
    f: &FollowRow,
    c: WatchlistCollection,
    with: (String, Option<i64>, u128),
    without: (String, Option<i64>, u128),
)
    requires
        call_ensures(watchlist_identity, (f, Some(c)), with),
        call_ensures(watchlist_identity, (f, None::<WatchlistCollection>), without),
    ensures
        with.0 == c.display_title && with.2 == c.id,
        c.tmdb_id is Some ==> with.1 == c.tmdb_id,
        c.tmdb_id is None ==> with.1 == f.tmdb_id,
        without == (f.name, f.tmdb_id, f.id),
{
}

/// The last engagement is the latest of the instants that are known, whichever
/// of the two it is.
pub proof fn engagement_is_the_latest(
    visited: Option<i64>,
    watched: Option<i64>,
    r: Option<i64>,
    swapped: Option<i64>,
)
    requires
        call_ensures(engaged_at, (visited, watched), r),
        call_ensures(engaged_at, (watched, visited), swapped),
    ensures
        r == swapped,
        r is None == (visited is None && watched is None),
        r is Some ==> r == visited || r == watched,
        visited is Some ==> r->0 >= visited->0,
        watched is Some ==> r->0 >= watched->0,
{
}

/// An item of the watchlist shows the pictures and the count that were found,
/// nothing where none were, and the follow for the rest.
pub proof fn watchlist_shows_what_was_found(
    f: FollowRow,
    identity: (String, Option<i64>, u128),
    paths: Option<(Option<String>, Option<String>)>,
    new_count: Option<i64>,
    r: WatchlistItem,
)
    requires
        call_ensures(watchlist_item, (f, identity, paths, new_count), r),
    ensures
        (r.name, r.tmdb_id, r.id) == identity,
        paths matches Some(p) ==> (r.poster_path, r.backdrop_path) == p,
        paths is None ==> r.poster_path is None && r.backdrop_path is None,
        new_count is Some ==> r.new_count == new_count->0,
        new_count is None ==> r.new_count == 0,
        r.normalized_name == f.normalized_name && r.last_visited_at == f.last_visited_at
            && r.created_at == f.created_at,
{
}

/// The next episode to watch is the successor, always, and the opener of the
/// next season exactly where the last one is known to be over; nothing else is.
pub proof fn watch_order_is_gapless(
    prev: (i64, i64),
    next: (i64, i64),
    finale: Option<i64>,
    r: bool,
)
    requires
        call_ensures(next_up_follows_watch_order, (prev, next, finale), r),
    ensures
        next.0 == prev.0 ==> r == (next.1 - prev.1 == 1),
        next.0 - prev.0 == 1 && next.1 == 1 ==> r == (finale is Some && finale->0 <= prev.1),
        next.0 - prev.0 == 1 && next.1 != 1 ==> !r,
        next.0 - prev.0 != 0 && next.0 - prev.0 != 1 ==> !r,
{
}

proof fn lemma_next_up_rows(candidates: Seq<NextUpCandidate>, row: ContinueWatchingRow)
    ensures
        next_up_rows(candidates).contains(row) <==> exists|i: int|
            0 <= i < candidates.len() && (#[trigger] candidates[i]).row == row
                && follows_watch_order(
                (candidates[i].prev_season, candidates[i].prev_episode),
                (candidates[i].next_season, candidates[i].next_episode),
                candidates[i].finale,
            ),
    decreases candidates.len(),
{
    if candidates.len() > 0 {
        let t = candidates.drop_last();
        let rows = next_up_rows(t);
        let c = candidates.last();
        lemma_next_up_rows(t, row);
        assert forall|i: int| 0 <= i < t.len() implies #[trigger] t[i] == candidates[i] by {}
        if rows.contains(row) {
            let i = choose|i: int|
                0 <= i < t.len() && (#[trigger] t[i]).row == row && follows_watch_order(
                    (t[i].prev_season, t[i].prev_episode),
                    (t[i].next_season, t[i].next_episode),
                    t[i].finale,
                );
            assert(candidates[i].row == row);
            let k = choose|k: int| 0 <= k < rows.len() && rows[k] == row;
            assert(next_up_rows(candidates)[k] == row);
        }
        let all = next_up_rows(candidates);
        if all.len() > rows.len() {
            assert(all[rows.len() as int] == c.row);
            assert(candidates[candidates.len() - 1].row == c.row);
        }
        if all.contains(row) && !rows.contains(row) {
            let k = choose|k: int| 0 <= k < all.len() && all[k] == row;
            if k < rows.len() {
                assert(rows[k] == row);
            }
            assert(row == c.row);
        }
        if exists|i: int|
            0 <= i < candidates.len() && (#[trigger] candidates[i]).row == row
                && follows_watch_order(
                (candidates[i].prev_season, candidates[i].prev_episode),
                (candidates[i].next_season, candidates[i].next_episode),
                candidates[i].finale,
            ) {
            let i = choose|i: int|
                0 <= i < candidates.len() && (#[trigger] candidates[i]).row == row
                    && follows_watch_order(
                    (candidates[i].prev_season, candidates[i].prev_episode),
                    (candidates[i].next_season, candidates[i].next_episode),
                    candidates[i].finale,
                );
            if i < t.len() {
                assert(t[i].row == row);
            }
        }
    }
}

/// Whether the `i`-th of some rows is the one that its series keeps: the first
/// of the latest.
pub open spec fn is_kept(rows: Seq<ContinueWatchingRow>, i: int) -> bool {
    rows[i].collection_id is None || forall|j: int|
        0 <= j < rows.len() && j != i && (#[trigger] rows[j]).collection_id
            == rows[i].collection_id ==> rows[j].last_watched_at < rows[i].last_watched_at || (
        rows[j].last_watched_at == rows[i].last_watched_at && i < j)
}

/// What merging rows in turn leaves: the kept ones, one per series.
#[verifier::opaque]
spec fn is_merged(out: Seq<ContinueWatchingRow>, rows: Seq<ContinueWatchingRow>) -> bool {
    &&& one_per_series(out)
    &&& forall|i: int| 0 <= i < rows.len() && is_kept(rows, i) ==> out.contains(#[trigger] rows[i])
    &&& forall|k: int|
        0 <= k < out.len() ==> exists|i: int|
            0 <= i < rows.len() && rows[i] == #[trigger] out[k] && #[trigger] is_kept(rows, i)
}

proof fn lemma_merge_step(
    out: Seq<ContinueWatchingRow>,
    rows: Seq<ContinueWatchingRow>,
    r: ContinueWatchingRow,
)
    requires
        is_merged(out, rows),
    ensures
        is_merged(merged_with(out, r), rows.push(r)),
{
    reveal(is_merged);
    let all = rows.push(r);
    let n = rows.len() as int;
    let m = merged_with(out, r);
    lemma_merge_keeps_one(out, r);
    assert(all[n] == r);
    if r.collection_id is None {
        assert(m == out.push(r));
        assert forall|i: int| 0 <= i < n implies is_kept(all, i) == #[trigger] is_kept(rows, i) by {
            lemma_kept_of_others(rows, r, i);
        }
    } else {
        let c = r.collection_id->0;
        lemma_row_of(out, c, 0);
    }
    let found = if r.collection_id is Some {
        row_of(out, r.collection_id->0, 0)
    } else {
        None
    };
    if let Some(x) = found {
        let w = choose|w: int| 0 <= w < n && rows[w] == out[x] && is_kept(rows, w);
        lemma_later_row(rows, r, w);
        assert forall|i: int| 0 <= i < n + 1 && is_kept(all, i) implies m.contains(
            #[trigger] all[i],
        ) by {
            if i < n {
                lemma_kept_before(rows, r, i);
                assert(out.contains(rows[i]));
                let k = choose|k: int| 0 <= k < out.len() && out[k] == rows[i];
                if k == x && r.last_watched_at > out[x].last_watched_at {
                    assert(all[n].collection_id == all[i].collection_id);
                    assert(false);
                }
                assert(m[k] == all[i]);
            } else {
                assert(all[w] == rows[w]);
                assert(r.last_watched_at > out[x].last_watched_at);
                assert(m[x] == r);
            }
        }
        assert forall|k: int| 0 <= k < m.len() implies exists|i: int|
            0 <= i < all.len() && all[i] == #[trigger] m[k] && #[trigger] is_kept(all, i) by {
            if k == x && r.last_watched_at > out[x].last_watched_at {
                assert(is_kept(all, n));
            } else {
                let i = choose|i: int| 0 <= i < n && rows[i] == out[k] && is_kept(rows, i);
                if k == x {
                    lemma_kept_still(rows, r, i);
                } else {
                    assert(out[k].collection_id is None || out[k].collection_id
                        != out[x].collection_id);
                    lemma_kept_of_others(rows, r, i);
                }
                assert(all[i] == m[k]);
                assert(is_kept(all, i));
            }
        }
    } else {
        assert(m == out.push(r));
        assert(m[out.len() as int] == r);
        assert forall|i: int| 0 <= i < n + 1 && is_kept(all, i) implies m.contains(
            #[trigger] all[i],
        ) by {
            if i < n {
                lemma_kept_before(rows, r, i);
                assert(out.contains(rows[i]));
                let k = choose|k: int| 0 <= k < out.len() && out[k] == rows[i];
                assert(m[k] == all[i]);
            }
        }
        assert(is_kept(all, n)) by {
            if r.collection_id is Some {
                assert forall|j: int| 0 <= j < n implies (#[trigger] all[j]).collection_id
                    != r.collection_id by {
                    if rows[j].collection_id == r.collection_id {
                        let b = lemma_some_kept(rows, j);
                        assert(out.contains(rows[b]));
                        let k = choose|k: int| 0 <= k < out.len() && out[k] == rows[b];
                        assert(out[k].collection_id == r.collection_id);
                    }
                }
            }
        }
        assert forall|k: int| 0 <= k < m.len() implies exists|i: int|
            0 <= i < all.len() && all[i] == #[trigger] m[k] && #[trigger] is_kept(all, i) by {
            if k < out.len() {
                let i = choose|i: int| 0 <= i < n && rows[i] == out[k] && is_kept(rows, i);
                assert(out[k].collection_id is None || out[k].collection_id != r.collection_id);
                lemma_kept_of_others(rows, r, i);
                assert(all[i] == m[k]);
                assert(is_kept(all, i));
            } else {
                assert(all[n] == m[k]);
                assert(is_kept(all, n));
            }
        }
    }
}

/// A later row of the same series takes the place of the kept one only where it
/// is of a later instant.
proof fn lemma_later_row(rows: Seq<ContinueWatchingRow>, r: ContinueWatchingRow, w: int)
    requires
        0 <= w < rows.len(),
        is_kept(rows, w),
        r.collection_id is Some,
        rows[w].collection_id == r.collection_id,
    ensures
        is_kept(rows.push(r), rows.len() as int) == (r.last_watched_at > rows[w].last_watched_at),
{
    let all = rows.push(r);
    let n = rows.len() as int;
    assert(all[w] == rows[w]);
    if r.last_watched_at > rows[w].last_watched_at {
        assert forall|j: int|
            0 <= j < all.len() && j != n && (#[trigger] all[j]).collection_id
                == all[n].collection_id implies all[j].last_watched_at < all[n].last_watched_at by {
            assert(all[j] == rows[j]);
        }
    } else if is_kept(all, n) {
        assert(all[w].collection_id == all[n].collection_id);
        assert(false);
    }
}

proof fn lemma_kept_of_others(rows: Seq<ContinueWatchingRow>, r: ContinueWatchingRow, i: int)
    requires
        0 <= i < rows.len(),
        rows[i].collection_id is None || rows[i].collection_id != r.collection_id,
    ensures
        is_kept(rows.push(r), i) == is_kept(rows, i),
{
    let all = rows.push(r);
    assert(all[i] == rows[i]);
    assert forall|j: int| 0 <= j < rows.len() implies #[trigger] all[j] == rows[j] by {}
    if is_kept(all, i) && rows[i].collection_id is Some {
        assert forall|j: int|
            0 <= j < rows.len() && j != i && (#[trigger] rows[j]).collection_id
                == rows[i].collection_id implies rows[j].last_watched_at < rows[i].last_watched_at
            || (rows[j].last_watched_at == rows[i].last_watched_at && i < j) by {
            assert(all[j] == rows[j]);
        }
    }
}

proof fn lemma_kept_still(rows: Seq<ContinueWatchingRow>, r: ContinueWatchingRow, i: int)
    requires
        0 <= i < rows.len(),
        is_kept(rows, i),
        r.last_watched_at <= rows[i].last_watched_at,
    ensures
        is_kept(rows.push(r), i),
{
    let all = rows.push(r);
    assert(all[i] == rows[i]);
    assert forall|j: int| 0 <= j < rows.len() implies #[trigger] all[j] == rows[j] by {}
}

proof fn lemma_kept_before(rows: Seq<ContinueWatchingRow>, r: ContinueWatchingRow, i: int)
    requires
        0 <= i < rows.len(),
        is_kept(rows.push(r), i),
    ensures
        is_kept(rows, i),
{
    let all = rows.push(r);
    assert(all[i] == rows[i]);
    if rows[i].collection_id is Some {
        assert forall|j: int|
            0 <= j < rows.len() && j != i && (#[trigger] rows[j]).collection_id
                == rows[i].collection_id implies rows[j].last_watched_at < rows[i].last_watched_at
            || (rows[j].last_watched_at == rows[i].last_watched_at && i < j) by {
            assert(all[j] == rows[j]);
        }
    }
}

/// Some row of each series is kept.
proof fn lemma_some_kept(rows: Seq<ContinueWatchingRow>, j: int) -> (b: int)
    requires
        0 <= j < rows.len(),
        rows[j].collection_id is Some,
    ensures
        0 <= b < rows.len(),
        rows[b].collection_id == rows[j].collection_id,
        is_kept(rows, b),
    decreases rows.len(),
{
    let t = rows.drop_last();
    let r = rows.last();
    let n = t.len() as int;
    assert(rows =~= t.push(r));
    if exists|k: int| 0 <= k < n && (#[trigger] t[k]).collection_id == rows[j].collection_id {
        let k = choose|k: int|
            0 <= k < n && (#[trigger] t[k]).collection_id == rows[j].collection_id;
        let b = lemma_some_kept(t, k);
        if r.collection_id != rows[j].collection_id {
            lemma_kept_of_others(t, r, b);
            b
        } else if r.last_watched_at > t[b].last_watched_at {
            lemma_later_row(t, r, b);
            n
        } else {
            lemma_kept_still(t, r, b);
            b
        }
    } else {
        assert(j == n) by {
            if j < n {
                assert(t[j].collection_id == rows[j].collection_id);
            }
        }
        assert forall|k: int| 0 <= k < n implies (#[trigger] rows[k]).collection_id
            != r.collection_id by {
            assert(t[k] == rows[k]);
        }
        n
    }
}

proof fn lemma_merged(rows: Seq<ContinueWatchingRow>)
    ensures
        is_merged(merged_all(Seq::empty(), rows), rows),
    decreases rows.len(),
{
    if rows.len() > 0 {
        lemma_merged(rows.drop_last());
        lemma_merge_step(
            merged_all(Seq::empty(), rows.drop_last()),
            rows.drop_last(),
            rows.last(),
        );
        assert(rows =~= rows.drop_last().push(rows.last()));
    } else {
        reveal(is_merged);
    }
}

proof fn lemma_merged_all_of_two(
    base: Seq<ContinueWatchingRow>,
    a: Seq<ContinueWatchingRow>,
    b: Seq<ContinueWatchingRow>,
)
    ensures
        merged_all(merged_all(base, a), b) == merged_all(base, a + b),
    decreases b.len(),
{
    if b.len() > 0 {
        lemma_merged_all_of_two(base, a, b.drop_last());
        assert((a + b).drop_last() =~= a + b.drop_last());
        assert((a + b).last() == b.last());
    } else {
        assert(a + b =~= a);
    }
}

/// The rows of the shelf are those of the files that were stopped half-way and
/// of the episodes on disk that come next, and of no others. What belongs to no
/// series is always there; of a series the latest is, and of several of that
/// instant the first.
#[verifier::rlimit(60)]
pub proof fn shelf_keeps_the_latest_of_a_series(
    resume: Vec<ContinueWatchingRow>,
    candidates: Vec<NextUpCandidate>,
    r: Vec<ContinueWatchingRow>,
) -> (all: Seq<ContinueWatchingRow>)
    requires
        call_ensures(continue_watching_owned, (resume, candidates), r),
    ensures
        all.len() >= resume@.len() && all.take(resume@.len() as int) == resume@,
        forall|row: ContinueWatchingRow| #[trigger]
            all.skip(resume@.len() as int).contains(row) <==> exists|i: int|
                0 <= i < candidates@.len() && (#[trigger] candidates@[i]).row == row && ((
                candidates@[i].next_season == candidates@[i].prev_season
                    && candidates@[i].next_episode == candidates@[i].prev_episode + 1) || (
                candidates@[i].next_season == candidates@[i].prev_season + 1
                    && candidates@[i].next_episode == 1 && candidates@[i].finale is Some
                    && candidates@[i].finale->0 <= candidates@[i].prev_episode)),
        forall|i: int|
            0 <= i < all.len() && is_kept(all, i) ==> r@.contains(#[trigger] all[i]),
        forall|k: int|
            0 <= k < r@.len() ==> exists|i: int|
                0 <= i < all.len() && all[i] == #[trigger] r@[k] && #[trigger] is_kept(all, i),
        one_per_series(r@),
{
    let next = next_up_rows(candidates@);
    let all = resume@ + next;
    lemma_merged_all_of_two(Seq::empty(), resume@, next);
    lemma_merged(all);
    reveal(is_merged);
    assert(all.take(resume@.len() as int) =~= resume@);
    assert(all.skip(resume@.len() as int) =~= next);
    assert forall|row: ContinueWatchingRow| #[trigger]
        next.contains(row) <==> exists|i: int|
            0 <= i < candidates@.len() && (#[trigger] candidates@[i]).row == row && ((
            candidates@[i].next_season == candidates@[i].prev_season
                && candidates@[i].next_episode == candidates@[i].prev_episode + 1) || (
            candidates@[i].next_season == candidates@[i].prev_season + 1
                && candidates@[i].next_episode == 1 && candidates@[i].finale is Some
                && candidates@[i].finale->0 <= candidates@[i].prev_episode)) by {
        lemma_next_up_rows(candidates@, row);
    }
    all
}

/// The shelf holds its size of rows or all there are, the latest first; nothing
/// later than what it shows is left out.
#[verifier::rlimit(60)]
pub proof fn shelf_shows_the_latest(rows: Vec<ContinueWatchingRow>, r: Vec<ContinueWatchingRow>)
    requires
        call_ensures(shelf, (rows,), r),
    ensures
        r@.len() == if rows@.len() < 12 {
            rows@.len()
        } else {
            12
        },
        forall|i: int, j: int|
            0 <= i < j < r@.len() ==> (#[trigger] r@[i]).last_watched_at >= (
            #[trigger] r@[j]).last_watched_at,
        exists|rest: Seq<ContinueWatchingRow>|
            (r@ + rest).to_multiset() == rows@.to_multiset() && forall|i: int, j: int|
                0 <= i < r@.len() && 0 <= j < rest.len() ==> (#[trigger] r@[i]).last_watched_at >= (
                #[trigger] rest[j]).last_watched_at,
{
    let s = order::sorted(rows@);
    order::sorted_is_ordered_permutation(rows@);
    let n = r@.len() as int;
    let rest = s.skip(n);
    assert(r@ =~= s.take(n));
    assert(r@ + rest =~= s);
    assert forall|i: int, j: int|
        0 <= i < r@.len() && 0 <= j < rest.len() implies (#[trigger] r@[i]).last_watched_at >= (
    #[trigger] rest[j]).last_watched_at by {
        assert(!s[n + j].before(s[i]));
    }
    assert forall|i: int, j: int| 0 <= i < j < r@.len() implies (
    #[trigger] r@[i]).last_watched_at >= (#[trigger] r@[j]).last_watched_at by {
        assert(!s[j].before(s[i]));
    }
}

#[verifier::rlimit(60)]
proof fn lemma_grabbable(
    base: Seq<ContinueWatchingRow>,
    frontiers: Seq<(Frontier, Option<(i64, i64)>)>,
)
    ensures
        forall|k: int|
            0 <= k < grabbable_from(base, frontiers).len() ==> frontiers.contains(
                (
                    (#[trigger] grabbable_from(base, frontiers)[k]).0,
                    Some(grabbable_from(base, frontiers)[k].1),
                ),
            ),
        forall|i: int|
            0 <= i < frontiers.len() && (#[trigger] frontiers[i]).1 is Some && row_of(
                base,
                frontiers[i].0.collection_id,
                0,
            ) is None ==> taken(grabbable_from(base, frontiers), frontiers[i].0.collection_id),
        forall|i: int|
            0 <= i < frontiers.len() && (#[trigger] frontiers[i]).1 is Some && row_of(
                base,
                frontiers[i].0.collection_id,
                0,
            ) is None && (forall|j: int|
                0 <= j < i ==> (#[trigger] frontiers[j]).1 is None || frontiers[j].0.collection_id
                    != frontiers[i].0.collection_id) ==> grabbable_from(base, frontiers).contains(
                (frontiers[i].0, frontiers[i].1->0),
            ),
    decreases frontiers.len(),
{
    if frontiers.len() > 0 {
        let f0 = frontiers.drop_last();
        let n = f0.len() as int;
        let before = grabbable_from(base, f0);
        let g = grabbable_from(base, frontiers);
        let (f, next) = frontiers.last();
        lemma_grabbable(base, f0);
        assert forall|i: int| 0 <= i < n implies #[trigger] f0[i] == frontiers[i] by {}
        assert(frontiers[n] == (f, next));
        if g.len() > before.len() {
            assert(g[before.len() as int] == (f, next->0));
        }
        assert forall|k: int| 0 <= k < g.len() implies frontiers.contains(
            ((#[trigger] g[k]).0, Some(g[k].1)),
        ) by {
            if k < before.len() {
                assert(g[k] == before[k]);
                let e = (before[k].0, Some(before[k].1));
                assert(f0.contains(e));
                let i = choose|i: int| 0 <= i < f0.len() && f0[i] == e;
                assert(frontiers[i] == e);
            } else {
                assert(frontiers[n] == (g[k].0, Some(g[k].1)));
            }
        }
        assert forall|c: u128| taken(before, c) implies #[trigger] taken(g, c) by {
            let k = choose|k: int|
                0 <= k < before.len() && (#[trigger] before[k]).0.collection_id == c;
            assert(g[k].0.collection_id == c);
        }
        assert forall|i: int|
            0 <= i < frontiers.len() && (#[trigger] frontiers[i]).1 is Some && row_of(
                base,
                frontiers[i].0.collection_id,
                0,
            ) is None implies taken(g, frontiers[i].0.collection_id) by {
            if i < n {
                assert(f0[i].1 is Some);
                assert(taken(before, f0[i].0.collection_id));
            } else if !taken(before, f.collection_id) {
                assert(g[before.len() as int].0.collection_id == f.collection_id);
            }
        }
        assert forall|i: int|
            0 <= i < frontiers.len() && (#[trigger] frontiers[i]).1 is Some && row_of(
                base,
                frontiers[i].0.collection_id,
                0,
            ) is None && (forall|j: int|
                0 <= j < i ==> (#[trigger] frontiers[j]).1 is None || frontiers[j].0.collection_id
                    != frontiers[i].0.collection_id) implies g.contains(
            (frontiers[i].0, frontiers[i].1->0),
        ) by {
            if i < n {
                assert(f0[i] == frontiers[i]);
                assert forall|j: int| 0 <= j < i implies (#[trigger] f0[j]).1 is None
                    || f0[j].0.collection_id != f0[i].0.collection_id by {
                    assert(frontiers[j].1 is None || frontiers[j].0.collection_id
                        != frontiers[i].0.collection_id);
                }
                let e = (f0[i].0, f0[i].1->0);
                assert(before.contains(e));
                let k = choose|k: int| 0 <= k < before.len() && before[k] == e;
                assert(g[k] == e);
            } else {
                if taken(before, f.collection_id) {
                    let k = choose|k: int|
                        0 <= k < before.len() && (#[trigger] before[k]).0.collection_id
                            == f.collection_id;
                    let e = (before[k].0, Some(before[k].1));
                    assert(f0.contains(e));
                    let j = choose|j: int| 0 <= j < f0.len() && f0[j] == e;
                    assert(frontiers[j] == e);
                    assert(false);
                }
                assert(g[before.len() as int] == (f, next->0));
            }
        }
    }
}

/// A series without a tile whose next episode has aired gets one for that
/// episode, which can be fetched; the rows that were there stay in front, and
/// nothing else is added.
#[verifier::rlimit(60)]
pub proof fn aired_episode_gets_a_tile(
    rows: Seq<ContinueWatchingRow>,
    base: Seq<ContinueWatchingRow>,
    frontiers: Seq<(Frontier, Option<(i64, i64)>)>,
    i: int,
    k: int,
)
    requires
        extended_by(rows, base, grabbable_from(base, frontiers)),
    ensures
        rows.len() >= base.len() && rows.take(base.len() as int) == base,
        0 <= i < frontiers.len() && frontiers[i].1 is Some && (forall|j: int|
            0 <= j < base.len() ==> (#[trigger] base[j]).collection_id != Some(
                frontiers[i].0.collection_id,
            )) && (forall|j: int|
            0 <= j < i ==> (#[trigger] frontiers[j]).1 is None || frontiers[j].0.collection_id
                != frontiers[i].0.collection_id) ==> exists|t: int|
            base.len() <= t < rows.len() && (#[trigger] rows[t]).collection_id == Some(
                frontiers[i].0.collection_id,
            ) && rows[t].season == Some((frontiers[i].1->0).0) && rows[t].episode == Some(
                (frontiers[i].1->0).1,
            ) && rows[t].grabbable && rows[t].next_up && rows[t].last_watched_at
                == frontiers[i].0.last_watched_at && rows[t].torrent_name
                == frontiers[i].0.display_title && rows[t].tmdb_id == frontiers[i].0.tmdb_id,
        base.len() <= k < rows.len() ==> rows[k].grabbable && exists|j: int|
            0 <= j < frontiers.len() && rows[k].collection_id == Some(
                (#[trigger] frontiers[j]).0.collection_id,
            ) && frontiers[j].1 is Some && rows[k].season == Some((frontiers[j].1->0).0)
                && rows[k].episode == Some((frontiers[j].1->0).1),
{
    let tiles = grabbable_from(base, frontiers);
    let n = base.len() as int;
    lemma_grabbable(base, frontiers);
    if 0 <= i < frontiers.len() {
        lemma_row_of(base, frontiers[i].0.collection_id, 0);
        let e = (frontiers[i].0, frontiers[i].1->0);
        if tiles.contains(e) {
            let t = choose|t: int| 0 <= t < tiles.len() && tiles[t] == e;
            assert(is_grabbable_tile(rows[n + t], tiles[t].0, tiles[t].1.0, tiles[t].1.1));
        }
    }
    if n <= k < rows.len() {
        let t = k - n;
        assert(is_grabbable_tile(rows[n + t], tiles[t].0, tiles[t].1.0, tiles[t].1.1));
        let e = (tiles[t].0, Some(tiles[t].1));
        assert(frontiers.contains(e));
        let j = choose|j: int| 0 <= j < frontiers.len() && frontiers[j] == e;
        assert(frontiers[j].0 == tiles[t].0);
    }
}

proof fn lemma_top_episode(eps: Seq<EpisodeMetadata>, n: int)
    requires
        0 <= n <= eps.len(),
    ensures
        match top_episode(eps, n) {
            Some(e) => {
                &&& n > 0
                &&& exists|i: int| 0 <= i < n && (#[trigger] eps[i]).episode == e
                &&& forall|i: int| 0 <= i < n ==> (#[trigger] eps[i]).episode <= e
            },
            None => n == 0,
        },
    decreases n,
{
    if n > 0 {
        lemma_top_episode(eps, n - 1);
        assert(eps[n - 1].episode == eps[n - 1].episode);
    }
}

proof fn lemma_entry_of(eps: Seq<EpisodeMetadata>, episode: int, from: int)
    requires
        0 <= from,
    ensures
        match entry_of(eps, episode, from) {
            Some(e) => exists|i: int|
                from <= i < eps.len() && #[trigger] eps[i] == e && e.episode == episode
                    && forall|j: int| from <= j < i ==> (#[trigger] eps[j]).episode != episode,
            None => forall|j: int| from <= j < eps.len() ==> (#[trigger] eps[j]).episode != episode,
        },
    decreases eps.len() - from,
{
    if from < eps.len() {
        if eps[from].episode == episode {
            assert(eps[from] == entry_of(eps, episode, from)->0);
        } else {
            lemma_entry_of(eps, episode, from + 1);
        }
    }
}

/// The finale of a season is the highest episode that is listed for it.
pub proof fn finale_is_the_highest(eps: &Vec<EpisodeMetadata>, r: Option<i64>)
    requires
        call_ensures(season_finale_episode, (eps,), r),
    ensures
        match r {
            Some(n) => {
                &&& exists|i: int| 0 <= i < eps@.len() && (#[trigger] eps@[i]).episode == n
                &&& forall|i: int| 0 <= i < eps@.len() ==> (#[trigger] eps@[i]).episode <= n
            },
            None => eps@.len() == 0,
        },
{
    lemma_top_episode(eps@, eps@.len() as int);
}

/// A date is not after another: it is the same, or earlier where the two first
/// differ.
pub open spec fn not_after(d: Seq<char>, today: Seq<char>) -> bool {
    d == today || exists|k: int|
        0 <= k <= d.len() && k < today.len() && #[trigger] d.take(k) == today.take(k) && (k
            == d.len() || d[k] < today[k])
}

proof fn lemma_not_after(d: Seq<char>, today: Seq<char>)
    ensures
        !text::text_lt(today, d) == not_after(d, today),
    decreases d.len() + today.len(),
{
    if d == today {
        text::text_lt_is_total_order(d, d, d);
    } else {
        text::text_lt_is_total_order(today, d, d);
        if not_after(d, today) {
            let k = choose|k: int|
                0 <= k <= d.len() && k < today.len() && #[trigger] d.take(k) == today.take(k) && (k
                    == d.len() || d[k] < today[k]);
            text::lemma_first_difference(d, today, k);
        }
        if text::text_lt(d, today) {
            let k = lemma_difference(d, today);
            assert(d.take(k) == today.take(k));
            text::lemma_first_difference(d, today, k);
        }
    }
}

proof fn lemma_difference(a: Seq<char>, b: Seq<char>) -> (k: int)
    requires
        a != b,
    ensures
        0 <= k <= a.len(),
        k <= b.len(),
        a.take(k) == b.take(k),
        k < a.len() || k < b.len(),
        k < a.len() && k < b.len() ==> a[k] != b[k],
    decreases a.len(),
{
    if a.len() == 0 || b.len() == 0 || a[0] != b[0] {
        assert(a.take(0) =~= b.take(0));
        if a.len() == 0 && b.len() == 0 {
            assert(a =~= b);
        }
        0
    } else {
        let x = a.drop_first();
        let y = b.drop_first();
        assert(a =~= seq![a[0]] + x && b =~= seq![b[0]] + y);
        let k = lemma_difference(x, y);
        assert(a.take(k + 1) =~= seq![a[0]] + x.take(k));
        assert(b.take(k + 1) =~= seq![b[0]] + y.take(k));
        k + 1
    }
}

/// The next episode of a season that goes on is offered exactly where its first
/// listing has a date that is not after today's. The next season is asked for
/// only past the last episode that is listed, and nothing is known of a season
/// of which nothing is.
#[verifier::rlimit(60)]
pub proof fn next_episode_has_aired(
    eps: &Vec<EpisodeMetadata>,
    season: i64,
    episode: i64,
    today: &str,
    r: NextAired,
)
    requires
        call_ensures(next_aired_episode, (eps, season, episode, today), r),
    ensures
        r is AskNextSeason == (eps@.len() > 0 && forall|i: int|
            0 <= i < eps@.len() ==> (#[trigger] eps@[i]).episode <= episode),
        r matches NextAired::Known(Some(p)) ==> p.0 == season && p.1 == episode + 1,
        r is Known ==> ((r->Known_0 is Some) == exists|i: int|
            0 <= i < eps@.len() && (#[trigger] eps@[i]).episode == episode + 1 && (forall|j: int|
                0 <= j < i ==> (#[trigger] eps@[j]).episode != episode + 1) && eps@[i].air_date
                is Some && not_after(eps@[i].air_date->0@, today@)),
{
    lemma_top_episode(eps@, eps@.len() as int);
    lemma_entry_of(eps@, episode + 1, 0);
    if let Some(e) = entry_of(eps@, episode + 1, 0) {
        if let Some(d) = e.air_date {
            lemma_not_after(d@, today@);
        }
    }
}

/// The opener of the next season is offered exactly where its first listing has
/// a date that is not after today's.
#[verifier::rlimit(60)]
pub proof fn next_opener_has_aired(
    eps: &Vec<EpisodeMetadata>,
    season: i64,
    today: &str,
    r: Option<(i64, i64)>,
)
    requires
        season < i64::MAX,
        call_ensures(next_season_opener, (eps, season, today), r),
    ensures
        r matches Some(p) ==> p.0 == season + 1 && p.1 == 1,
        r is Some == exists|i: int|
            0 <= i < eps@.len() && (#[trigger] eps@[i]).episode == 1 && (forall|j: int|
                0 <= j < i ==> (#[trigger] eps@[j]).episode != 1) && eps@[i].air_date is Some
                && not_after(eps@[i].air_date->0@, today@),
{
    lemma_entry_of(eps@, 1, 0);
    if let Some(e) = entry_of(eps@, 1, 0) {
        if let Some(d) = e.air_date {
            lemma_not_after(d@, today@);
        }
    }
}

/// What is offered on one day is offered on every later one, and on the day
/// that is its date.
pub proof fn aired_stays_aired(
    eps: &Vec<EpisodeMetadata>,
    season: i64,
    episode: i64,
    today: &str,
    later: &str,
    now: NextAired,
    then: NextAired,
)
    requires
        call_ensures(next_aired_episode, (eps, season, episode, today), now),
        call_ensures(next_aired_episode, (eps, season, episode, later), then),
        call_ensures(text::sorts_before, (today, later), true) || today@ == later@,
    ensures
        now is Known && now->Known_0 is Some ==> then == now,
{
    if let Some(e) = entry_of(eps@, episode + 1, 0) {
        if let Some(d) = e.air_date {
            text::text_lt_is_total_order(today@, later@, d@);
            text::text_lt_is_total_order(later@, d@, today@);
            text::text_lt_is_total_order(today@, d@, later@);
        }
    }
}

proof fn lemma_path_of_file(files: Seq<FileEntry>, idx: i64, from: int)
    requires
        0 <= from,
    ensures
        match path_of_file(files, idx, from) {
            Some(p) => exists|i: int|
                from <= i < files.len() && (#[trigger] files[i]).index == idx && files[i].path@ == p
                    && forall|j: int| from <= j < i ==> (#[trigger] files[j]).index != idx,
            None => forall|j: int| from <= j < files.len() ==> (#[trigger] files[j]).index != idx,
        },
    decreases files.len() - from,
{
    if from < files.len() {
        if files[from].index == idx {
            assert(files[from].path@ == path_of_file(files, idx, from)->0);
        } else {
            lemma_path_of_file(files, idx, from + 1);
        }
    }
}

/// The path of a file is that of the first entry with its index.
pub proof fn path_is_of_the_index(files: &Vec<FileEntry>, idx: i64, r: Option<String>)
    requires
        call_ensures(resolve_file_path, (Some(files), idx), r),
    ensures
        match r {
            Some(p) => exists|i: int|
                0 <= i < files@.len() && (#[trigger] files@[i]).index == idx && files@[i].path@
                    == p@ && forall|j: int| 0 <= j < i ==> (#[trigger] files@[j]).index != idx,
            None => forall|j: int| 0 <= j < files@.len() ==> (#[trigger] files@[j]).index != idx,
        },
{
    lemma_path_of_file(files@, idx, 0);
}

/// Hiding a series hides that one, whatever file is named beside it; a file is
/// forgotten only where its torrent and its index are both named.
pub proof fn named_series_is_hidden(body: DismissCwRequest, r: Result<DismissAction, ApiError>)
    requires
        call_ensures(dismiss_continue_watching, (body,), r),
    ensures
        r matches Ok(DismissAction::Collection(c)) ==> body.collection_id == Some(c),
        body.collection_id is Some ==> r is Ok && r->Ok_0 is Collection,
        r matches Ok(DismissAction::File(h, i)) ==> body.infohash is Some && h@ == text::lowered(
            body.infohash->0@,
        ) && body.file_idx == Some(i),
        r is Err == (body.collection_id is None && (body.infohash is None || body.file_idx
            is None)),
{
}

/// What is gone is hidden as a series where one is named, and else as a
/// release.
pub proof fn gone_series_is_hidden(body: DismissGoneRequest, r: Result<DismissGoneAction, ApiError>)
    requires
        call_ensures(dismiss_gone, (body,), r),
    ensures
        r matches Ok(DismissGoneAction::Collection(c)) ==> body.collection_id == Some(c),
        body.collection_id is Some ==> r is Ok && r->Ok_0 is Collection,
        r matches Ok(DismissGoneAction::Release(h)) ==> body.infohash is Some && h@
            == text::lowered(body.infohash->0@),
        r is Err == (body.collection_id is None && body.infohash is None),
{
}

/// Clamping leaves what lies within alone and moves the rest to the nearest
/// number that does.
pub proof fn clamping_moves_to_the_nearest(n: i64, low: i64, high: i64, r: i64)
    requires
        low <= high,
        call_ensures(clamp, (n, low, high), r),
    ensures
        low <= r <= high,
        low <= n <= high ==> r == n,
        n < low ==> r == low,
        n > high ==> r == high,
{
}

/// A page of the history has between 1 and 200 rows, as many as were asked for
/// where that lies between, and 50 where nothing was; it never starts before
/// the first row.
pub proof fn history_page_is_as_asked(limit: Option<i64>, offset: Option<i64>, r: (i64, i64))
    requires
        call_ensures(history_page, (limit, offset), r),
    ensures
        1 <= r.0 <= 200 && r.1 >= 0,
        limit is Some && 1 <= limit->0 <= 200 ==> r.0 == limit->0,
        limit is Some && limit->0 > 200 ==> r.0 == 200,
        limit is Some && limit->0 < 1 ==> r.0 == 1,
        limit is None ==> r.0 == 50,
        offset is Some && offset->0 >= 0 ==> r.1 == offset->0,
        offset is None || offset->0 < 0 ==> r.1 == 0,
{
}

/// Without episodes to fetch, the shelf is made of what is owned.
pub proof fn shelf_is_made_of_what_is_owned(
    resume: Vec<ContinueWatchingRow>,
    candidates: Vec<NextUpCandidate>,
    owned: Vec<ContinueWatchingRow>,
    shown: Vec<ContinueWatchingRow>,
    r: Vec<ContinueWatchingRow>,
)
    requires
        call_ensures(continue_watching_owned, (resume, candidates), owned),
        call_ensures(shelf, (owned,), shown),
        call_ensures(
            continue_watching,
            (resume, candidates, None::<Vec<(Frontier, Option<(i64, i64)>)>>),
            r,
        ),
    ensures
        r@ == shown@,
{
}

/// With episodes to fetch, the shelf is made of what is owned and their tiles.
pub proof fn shelf_is_filled_with_tiles(
    resume: Vec<ContinueWatchingRow>,
    candidates: Vec<NextUpCandidate>,
    frontiers: Vec<(Frontier, Option<(i64, i64)>)>,
    owned: Vec<ContinueWatchingRow>,
    r: Vec<ContinueWatchingRow>,
) -> (rows: Seq<ContinueWatchingRow>)
    requires
        call_ensures(continue_watching_owned, (resume, candidates), owned),
        call_ensures(continue_watching, (resume, candidates, Some(frontiers)), r),
    ensures
        extended_by(rows, owned@, grabbable_from(owned@, frontiers@)),
        forall|v: Vec<ContinueWatchingRow>, shown: Vec<ContinueWatchingRow>|
            v@ == rows && #[trigger] call_ensures(shelf, (v,), shown) ==> r@ == shown@,
{
    choose|rows: Seq<ContinueWatchingRow>|
        #[trigger] extended_by(rows, owned@, grabbable_from(owned@, frontiers@)) && r@
            == first_rows(order::sorted(rows))
}

/// A series has a tile exactly where some row belongs to it.
pub proof fn tile_is_a_row_of_the_series(
    rows: &Vec<ContinueWatchingRow>,
    collection: u128,
    r: bool,
)
    requires
        call_ensures(has_tile, (rows, collection), r),
    ensures
        !r ==> forall|i: int|
            0 <= i < rows@.len() ==> (#[trigger] rows@[i]).collection_id != Some(collection),
        r ==> exists|i: int|
            0 <= i < rows@.len() && (#[trigger] rows@[i]).collection_id == Some(collection),
{
}

/// A tile tells of its row where playing goes on.
pub proof fn tile_tells_of_its_row(
    row: ContinueWatchingRow,
    path: Option<String>,
    r: ContinueWatchingItem,
)
    requires
        call_ensures(continue_watching_item, (row, path), r),
    ensures
        r.infohash == row.infohash && r.file_idx == row.file_idx && r.file_path == path,
        r.position_bits == row.position_bits && r.duration_bits == row.duration_bits,
        r.season == row.season && r.episode == row.episode && r.collection_id
            == row.collection_id,
        r.next_up == row.next_up && r.grabbable == row.grabbable && r.completed == row.completed,
        r.torrent_name == row.torrent_name && r.tmdb_id == row.tmdb_id && r.tmdb_verified
            == row.tmdb_verified && r.last_watched_at == row.last_watched_at,
        row.kind is None ==> r.kind is None,
{
}

/// An entry of the history tells of its row what was watched and how far.
pub proof fn history_tells_of_its_row(row: HistoryRow, path: Option<String>, r: HistoryItem)
    requires
        call_ensures(history_item, (row, path), r),
    ensures
        r.infohash == row.infohash && r.file_idx == row.file_idx && r.file_path == path,
        r.position_bits == row.position_bits && r.duration_bits == row.duration_bits,
        r.season == row.season && r.episode == row.episode && r.absolute_episode
            == row.absolute_episode,
        r.collection_id == row.collection_id && r.collection_title == row.collection_title,
        r.completed == row.completed && r.deleted == row.deleted,
        r.source_provider == row.source_provider && r.source_external_id
            == row.source_external_id,
        r.torrent_name == row.torrent_name && r.tmdb_id == row.tmdb_id && r.tmdb_verified
            == row.tmdb_verified && r.last_watched_at == row.last_watched_at,
        row.kind is None ==> r.kind is None,
{
}

/// A hash is what hashing gave, and a failure to hash is a fault of this
/// service.
pub proof fn failed_hash_is_an_internal_fault(
    hashed: Result<String, password::PasswordError>,
    r: Result<String, ApiError>,
)
    requires
        call_ensures(hash_reply, (hashed,), r),
    ensures
        r is Ok <==> hashed is Ok,
        r is Ok ==> r->Ok_0 == hashed->Ok_0,
        r is Err ==> r->Err_0@ is Internal,
{
}

} // verus!
