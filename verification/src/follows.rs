//! Followed series: their episodes, and the episode before and after the one
//! being played.

use vstd::prelude::*;
use vstd::string::StringExecFns;

use crate::api_error;
use crate::api_error::{ApiError, Failure};
use crate::episode_map;
use crate::episode_map::{EpisodeKey, EpisodeMap};
use crate::grab::AvailableEpisodeRow;
use crate::language;
use crate::language::{LangSel, Language, Tag};
use crate::text;

verus! {

/// A followed series.
#[derive(Debug, Clone)]
pub struct FollowRow {
    pub id: u128,
    pub normalized_name: String,
    pub name: String,
    pub tmdb_id: Option<i64>,
    /// Milliseconds since the Unix epoch.
    pub last_visited_at: Option<i64>,
    /// Milliseconds since the Unix epoch.
    pub created_at: i64,
}

/// An episode file on disk.
#[derive(Debug, Clone)]
pub struct EpisodeFileRow {
    pub collection_id: u128,
    pub season: i64,
    pub episode: i64,
    pub infohash: String,
    pub file_idx: i64,
    pub absolute_episode: Option<i64>,
}

/// What a client sees of a followed series.
#[derive(Debug, Clone)]
pub struct FollowSummary {
    pub id: u128,
    pub normalized_name: String,
    pub name: String,
    pub tmdb_id: Option<i64>,
    pub poster_path: Option<String>,
    pub backdrop_path: Option<String>,
    pub new_count: i64,
    pub last_visited_at: Option<i64>,
    pub created_at: i64,
}

#[derive(Debug, Clone, Copy, PartialEq, Eq, Structural)]
pub enum EpisodeStatus {
    Downloaded,
    Available,
}

/// One episode of a followed series.
#[derive(Debug, Clone)]
pub struct EpisodeItem {
    pub season: i64,
    pub episode: i64,
    pub status: EpisodeStatus,
    pub watched: bool,
    pub infohash: Option<String>,
    pub file_idx: Option<i64>,
    pub indexer_provider: Option<String>,
    pub indexer_torrent_id: Option<String>,
    pub quality: Option<String>,
    pub seeders: Option<i64>,
}

/// An episode the player can move to.
#[derive(Debug, Clone)]
pub struct EpisodePoint {
    pub follow_id: Option<u128>,
    pub season: i64,
    pub episode: i64,
    pub status: EpisodeStatus,
    pub infohash: Option<String>,
    pub file_idx: Option<i64>,
}

/// The episode being played and its neighbours.
#[derive(Debug, Clone)]
pub struct EpisodeContext {
    pub followed: bool,
    pub current: Option<EpisodePoint>,
    pub next: Option<EpisodePoint>,
    pub prev: Option<EpisodePoint>,
}

/// Which table an identifier was found in.
#[derive(Debug, Clone, Copy, PartialEq, Eq, Structural)]
pub enum FollowishSource {
    SeriesFollow,
    Collection,
}

/// The series behind an identifier.
#[derive(Debug, Clone)]
pub struct FollowishIdentity {
    pub normalized_name: String,
    pub display_name: String,
    pub tmdb_id: Option<i64>,
    pub source: FollowishSource,
}

/// A collection as the follow endpoints see it.
#[derive(Debug, Clone)]
pub struct SeriesCollection {
    pub kind: String,
    pub parsed_title_normalized: Option<String>,
    pub display_title: String,
    pub tmdb_id: Option<i64>,
}

// ---------------------------------------------------------------------------
// Following
// ---------------------------------------------------------------------------

/// The name to follow a series by: trimmed, and refused when nothing is left.
pub fn follow_name(name: &str) -> (r: Result<String, ApiError>)
    ensures
        match r {
            Ok(t) => t@ == text::trimmed(name@) && t@.len() > 0,
            Err(e) => text::trimmed(name@).len() == 0 && e@ == Failure::BadRequest(
                "name is required"@,
            ),
        },
{
    let t = text::trim(name);
    if text::is_blank(t.as_str()) {
        Err(api_error::bad_request("name is required"))
    } else {
        Ok(t)
    }
}

/// The identity of a series: its normalised name, refused when it is empty.
pub fn follow_identity(normalized: String) -> (r: Result<String, ApiError>)
    ensures
        match r {
            Ok(t) => t == normalized && normalized@.len() > 0,
            Err(e) => normalized@.len() == 0 && e@ == Failure::BadRequest(
                "name does not normalise"@,
            ),
        },
{
    if text::is_blank(normalized.as_str()) {
        Err(api_error::bad_request("name does not normalise"))
    } else {
        Ok(normalized)
    }
}

/// Which TMDB entry decorates a summary: the trusted one, where TMDB is
/// configured.
pub fn poster_lookup(tmdb_configured: bool, trusted_tmdb: Option<i64>) -> (r: Option<u64>)
    ensures
        r == if tmdb_configured {
            match trusted_tmdb {
                Some(t) => Some(t as u64),
                None => None,
            }
        } else {
            None
        },
{
    if tmdb_configured {
        match trusted_tmdb {
            Some(t) => Some(#[verifier::truncate] (t as u64)),
            None => None,
        }
    } else {
        None
    }
}

/// The summary of a followed series; `paths` are the poster and backdrop that
/// the trusted entry gave, and a failed count counts as nothing new.
pub fn summarize(
    row: &FollowRow,
    paths: Option<(Option<String>, Option<String>)>,
    new_count: Option<i64>,
) -> (r: FollowSummary)
    ensures
        r.id == row.id,
        r.normalized_name == row.normalized_name,
        r.name == row.name,
        r.tmdb_id == row.tmdb_id,
        r.poster_path == match paths {
            Some(p) => p.0,
            None => None,
        },
        r.backdrop_path == match paths {
            Some(p) => p.1,
            None => None,
        },
        r.new_count == match new_count {
            Some(n) => n,
            None => 0,
        },
        r.last_visited_at == row.last_visited_at,
        r.created_at == row.created_at,
{
    let (poster_path, backdrop_path) = match paths {
        Some(p) => p,
        None => (None, None),
    };
    let count: i64 = match new_count {
        Some(n) => n,
        None => 0,
    };
    FollowSummary {
        id: row.id,
        normalized_name: row.normalized_name.clone(),
        name: row.name.clone(),
        tmdb_id: row.tmdb_id,
        poster_path,
        backdrop_path,
        new_count: count,
        last_visited_at: row.last_visited_at,
        created_at: row.created_at,
    }
}

/// Answer to a deletion: there has to have been something to delete.
pub fn removal_outcome(removed: bool) -> (r: Result<(), ApiError>)
    ensures
        match r {
            Ok(_) => removed,
            Err(e) => !removed && e@ == Failure::NotFound,
        },
{
    if removed {
        Ok(())
    } else {
        Err(ApiError::NotFound)
    }
}

/// The series behind an identifier: a followed series, else a television
/// collection with a normalised title.
pub open spec fn followish(follow: Option<FollowRow>, collection: Option<SeriesCollection>)
    -> Option<FollowishIdentity> {
    match follow {
        Some(f) => Some(
            FollowishIdentity {
                normalized_name: f.normalized_name,
                display_name: f.name,
                tmdb_id: f.tmdb_id,
                source: FollowishSource::SeriesFollow,
            },
        ),
        None => match collection {
            Some(c) => match c.parsed_title_normalized {
                Some(n) => if c.kind@ == "tv"@ {
                    Some(
                        FollowishIdentity {
                            normalized_name: n,
                            display_name: c.display_title,
                            tmdb_id: c.tmdb_id,
                            source: FollowishSource::Collection,
                        },
                    )
                } else {
                    None
                },
                None => None,
            },
            None => None,
        },
    }
}

pub fn resolve_followish(follow: Option<FollowRow>, collection: Option<SeriesCollection>) -> (r:
    Option<FollowishIdentity>)
    ensures
        r == followish(follow, collection),
{
    match follow {
        Some(f) => Some(
            FollowishIdentity {
                normalized_name: f.normalized_name,
                display_name: f.name,
                tmdb_id: f.tmdb_id,
                source: FollowishSource::SeriesFollow,
            },
        ),
        None => match collection {
            Some(c) => {
                if text::same_text(c.kind.as_str(), "tv") {
                    match c.parsed_title_normalized {
                        Some(n) => Some(
                            FollowishIdentity {
                                normalized_name: n,
                                display_name: c.display_title,
                                tmdb_id: c.tmdb_id,
                                source: FollowishSource::Collection,
                            },
                        ),
                        None => None,
                    }
                } else {
                    None
                }
            },
            None => None,
        },
    }
}

// ---------------------------------------------------------------------------
// Episodes of a series
// ---------------------------------------------------------------------------

/// Whether a season passes the filter of a request.
pub open spec fn season_passes(filter: Option<u32>, season: i64) -> bool {
    filter matches Some(s) ==> season == s
}

pub fn season_wanted(filter: Option<u32>, season: i64) -> (r: bool)
    ensures
        r == season_passes(filter, season),
{
    match filter {
        Some(s) => season == s as i64,
        None => true,
    }
}

/// The item of an episode on disk.
pub open spec fn disk_item(f: EpisodeFileRow, watched: bool) -> EpisodeItem {
    EpisodeItem {
        season: f.season,
        episode: f.episode,
        status: EpisodeStatus::Downloaded,
        watched,
        infohash: Some(f.infohash),
        file_idx: Some(f.file_idx),
        indexer_provider: None,
        indexer_torrent_id: None,
        quality: None,
        seeders: None,
    }
}

/// The item of an episode that an indexer offers.
pub open spec fn offered_item(a: AvailableEpisodeRow) -> EpisodeItem {
    EpisodeItem {
        season: a.season,
        episode: a.episode,
        status: EpisodeStatus::Available,
        watched: false,
        infohash: None,
        file_idx: None,
        indexer_provider: Some(a.indexer_provider),
        indexer_torrent_id: Some(a.indexer_torrent_id),
        quality: a.quality,
        seeders: a.seeders,
    }
}

/// The wanted episodes on disk, by season and episode; of two files for one
/// episode the later counts.
pub open spec fn disk_items(files: Seq<(EpisodeFileRow, bool)>, filter: Option<u32>) -> Seq<
    (EpisodeKey, EpisodeItem),
>
    decreases files.len(),
{
    if files.len() == 0 {
        seq![]
    } else {
        let before = disk_items(files.drop_last(), filter);
        let (f, watched) = files.last();
        if season_passes(filter, f.season) {
            episode_map::put(before, (f.season, f.episode), disk_item(f, watched), false)
        } else {
            before
        }
    }
}

/// `base` with the wanted offers for episodes that it does not hold; of two
/// offers for one episode the earlier counts.
pub open spec fn with_offers(
    base: Seq<(EpisodeKey, EpisodeItem)>,
    available: Seq<AvailableEpisodeRow>,
    filter: Option<u32>,
) -> Seq<(EpisodeKey, EpisodeItem)>
    decreases available.len(),
{
    if available.len() == 0 {
        base
    } else {
        let before = with_offers(base, available.drop_last(), filter);
        let a = available.last();
        if season_passes(filter, a.season) {
            episode_map::put(before, (a.season, a.episode), offered_item(a), true)
        } else {
            before
        }
    }
}

/// The episodes of a series: those on disk, completed by those on offer.
pub open spec fn merged_episodes(
    files: Seq<(EpisodeFileRow, bool)>,
    available: Seq<AvailableEpisodeRow>,
    filter: Option<u32>,
) -> Seq<(EpisodeKey, EpisodeItem)> {
    with_offers(disk_items(files, filter), available, filter)
}

/// The episodes of a series in order: those on disk, each with whether the
/// caller has watched it, completed by those on offer.
pub fn episodes(
    files: Vec<(EpisodeFileRow, bool)>,
    available: Vec<AvailableEpisodeRow>,
    season: Option<u32>,
) -> (r: Vec<EpisodeItem>)
    ensures
        r@ == Seq::new(
            merged_episodes(files@, available@, season).len(),
            |i: int| merged_episodes(files@, available@, season)[i].1,
        ),
{
    let mut by_key: EpisodeMap<EpisodeItem> = EpisodeMap::new();
    let ghost all = files@;
    assert(by_key@ =~= disk_items(all.take(0), season));
    for e in it: files
        invariant
            it.seq() == all,
            by_key@ == disk_items(all.take(it.index()), season),
    {
        proof {
            assert(all.take(it.index() + 1).drop_last() =~= all.take(it.index()));
            assert(all.take(it.index() + 1).last() == e);
        }
        let (f, watched) = e;
        if season_wanted(season, f.season) {
            let key = (f.season, f.episode);
            let item = EpisodeItem {
                season: f.season,
                episode: f.episode,
                status: EpisodeStatus::Downloaded,
                watched,
                infohash: Some(f.infohash),
                file_idx: Some(f.file_idx),
                indexer_provider: None,
                indexer_torrent_id: None,
                quality: None,
                seeders: None,
            };
            by_key.insert(key, item);
        }
    }
    assert(all.take(all.len() as int) =~= all);
    let ghost base = by_key@;
    let ghost offered = available@;
    assert(by_key@ =~= with_offers(base, offered.take(0), season));
    for a in it: available
        invariant
            it.seq() == offered,
            by_key@ == with_offers(base, offered.take(it.index()), season),
    {
        proof {
            assert(offered.take(it.index() + 1).drop_last() =~= offered.take(it.index()));
            assert(offered.take(it.index() + 1).last() == a);
        }
        if season_wanted(season, a.season) {
            let key = (a.season, a.episode);
            let item = EpisodeItem {
                season: a.season,
                episode: a.episode,
                status: EpisodeStatus::Available,
                watched: false,
                infohash: None,
                file_idx: None,
                indexer_provider: Some(a.indexer_provider),
                indexer_torrent_id: Some(a.indexer_torrent_id),
                quality: a.quality,
                seeders: a.seeders,
            };
            by_key.insert_if_absent(key, item);
        }
    }
    assert(offered.take(offered.len() as int) =~= offered);
    by_key.into_values()
}

proof fn lemma_disk_items(files: Seq<(EpisodeFileRow, bool)>, filter: Option<u32>, key: EpisodeKey)
    ensures
        episode_map::in_order(disk_items(files, filter)),
        match episode_map::lookup(disk_items(files, filter), key) {
            Some(item) => item.status == EpisodeStatus::Downloaded,
            None => forall|i: int|
                0 <= i < files.len() && season_passes(filter, files[i].0.season) ==> ((
                #[trigger] files[i]).0.season, files[i].0.episode) != key,
        },
    decreases files.len(),
{
    if files.len() > 0 {
        let before = disk_items(files.drop_last(), filter);
        let (f, watched) = files.last();
        let k = (f.season, f.episode);
        lemma_disk_items(files.drop_last(), filter, key);
        episode_map::put_keeps_order(before, k, disk_item(f, watched), false);
        episode_map::lookup_after_put(before, k, disk_item(f, watched), false, key);
        assert forall|i: int|
            0 <= i < files.len() && season_passes(filter, files[i].0.season)
                && episode_map::lookup(disk_items(files, filter), key) is None implies ((
        #[trigger] files[i]).0.season, files[i].0.episode) != key by {
            if i < files.len() - 1 {
                assert(files.drop_last()[i] == files[i]);
            }
        }
    }
}

proof fn lemma_with_offers(
    base: Seq<(EpisodeKey, EpisodeItem)>,
    available: Seq<AvailableEpisodeRow>,
    filter: Option<u32>,
    key: EpisodeKey,
)
    requires
        episode_map::in_order(base),
    ensures
        episode_map::in_order(with_offers(base, available, filter)),
        episode_map::lookup(base, key) is Some ==> episode_map::lookup(
            with_offers(base, available, filter),
            key,
        ) == episode_map::lookup(base, key),
    decreases available.len(),
{
    if available.len() > 0 {
        lemma_with_offers(base, available.drop_last(), filter, key);
        let before = with_offers(base, available.drop_last(), filter);
        let a = available.last();
        let k = (a.season, a.episode);
        episode_map::put_keeps_order(before, k, offered_item(a), true);
        episode_map::lookup_after_put(before, k, offered_item(a), true, key);
    }
}

/// What is on disk wins over what is on offer, the episodes come out in order
/// and none twice.
pub proof fn downloaded_wins(
    files: Seq<(EpisodeFileRow, bool)>,
    available: Seq<AvailableEpisodeRow>,
    filter: Option<u32>,
    i: int,
)
    requires
        0 <= i < files.len(),
        season_passes(filter, files[i].0.season),
    ensures
        episode_map::in_order(merged_episodes(files, available, filter)),
        episode_map::lookup(
            merged_episodes(files, available, filter),
            (files[i].0.season, files[i].0.episode),
        ) matches Some(item) && item.status == EpisodeStatus::Downloaded,
{
    let key = (files[i].0.season, files[i].0.episode);
    lemma_disk_items(files, filter, key);
    lemma_with_offers(disk_items(files, filter), available, filter, key);
}

// ---------------------------------------------------------------------------
// Neighbours of an episode
// ---------------------------------------------------------------------------

/// The first file, from `from` on, that holds the episode.
pub open spec fn file_of(files: Seq<EpisodeFileRow>, season: int, episode: int, from: int)
    -> Option<EpisodeFileRow>
    decreases files.len() - from,
{
    if from < 0 || from >= files.len() {
        None
    } else if files[from].season == season && files[from].episode == episode {
        Some(files[from])
    } else {
        file_of(files, season, episode, from + 1)
    }
}

pub open spec fn on_offer(available: Seq<AvailableEpisodeRow>, season: int, episode: int) -> bool {
    exists|i: int|
        0 <= i < available.len() && (#[trigger] available[i]).season == season
            && available[i].episode == episode
}

/// Where an episode can be had: on disk, or, for a followed series, on offer.
pub open spec fn located(
    follow: Option<u128>,
    files: Seq<EpisodeFileRow>,
    available: Seq<AvailableEpisodeRow>,
    season: i64,
    episode: i64,
) -> Option<EpisodePoint> {
    match file_of(files, season as int, episode as int, 0) {
        Some(f) => Some(
            EpisodePoint {
                follow_id: follow,
                season,
                episode,
                status: EpisodeStatus::Downloaded,
                infohash: Some(f.infohash),
                file_idx: Some(f.file_idx),
            },
        ),
        None => if follow is Some && on_offer(available, season as int, episode as int) {
            Some(
                EpisodePoint {
                    follow_id: follow,
                    season,
                    episode,
                    status: EpisodeStatus::Available,
                    infohash: None,
                    file_idx: None,
                },
            )
        } else {
            None
        },
    }
}

/// Where an episode can be had.
pub fn lookup_next_episode(
    follow: Option<u128>,
    files: &Vec<EpisodeFileRow>,
    available: &Vec<AvailableEpisodeRow>,
    season: i64,
    episode: i64,
) -> (r: Option<EpisodePoint>)
    ensures
        r == located(follow, files@, available@, season, episode),
{
    let mut i: usize = 0;
    while i < files.len()
        invariant
            i <= files.len(),
            file_of(files@, season as int, episode as int, 0) == file_of(
                files@,
                season as int,
                episode as int,
                i as int,
            ),
        decreases files.len() - i,
    {
        if files[i].season == season && files[i].episode == episode {
            return Some(
                EpisodePoint {
                    follow_id: follow,
                    season,
                    episode,
                    status: EpisodeStatus::Downloaded,
                    infohash: Some(files[i].infohash.clone()),
                    file_idx: Some(files[i].file_idx),
                },
            );
        }
        i = i + 1;
    }
    if follow.is_none() {
        return None;
    }
    let mut k: usize = 0;
    while k < available.len()
        invariant
            k <= available.len(),
            follow is Some,
            file_of(files@, season as int, episode as int, 0) is None,
            forall|j: int|
                0 <= j < k ==> !((#[trigger] available@[j]).season == season
                    && available@[j].episode == episode),
        decreases available.len() - k,
    {
        if available[k].season == season && available[k].episode == episode {
            assert(available@[k as int].season == season);
            return Some(
                EpisodePoint {
                    follow_id: follow,
                    season,
                    episode,
                    status: EpisodeStatus::Available,
                    infohash: None,
                    file_idx: None,
                },
            );
        }
        k = k + 1;
    }
    None
}

/// The point of a file that shares a torrent with the one being played.
pub open spec fn sibling_point(row: Option<EpisodeFileRow>) -> Option<EpisodePoint> {
    match row {
        Some(f) => Some(
            EpisodePoint {
                follow_id: None,
                season: f.season,
                episode: f.episode,
                status: EpisodeStatus::Downloaded,
                infohash: Some(f.infohash),
                file_idx: Some(f.file_idx),
            },
        ),
        None => None,
    }
}

/// The point of a file that shares a torrent with the one being played.
pub fn same_torrent_next(row: Option<EpisodeFileRow>) -> (r: Option<EpisodePoint>)
    ensures
        r == sibling_point(row),
{
    match row {
        Some(f) => Some(
            EpisodePoint {
                follow_id: None,
                season: f.season,
                episode: f.episode,
                status: EpisodeStatus::Downloaded,
                infohash: Some(f.infohash),
                file_idx: Some(f.file_idx),
            },
        ),
        None => None,
    }
}

/// The highest episode of a season among the first `n` files.
pub open spec fn last_episode(files: Seq<EpisodeFileRow>, season: int, n: int) -> Option<i64>
    decreases n,
{
    if n <= 0 || n > files.len() {
        None
    } else {
        let before = last_episode(files, season, n - 1);
        let f = files[n - 1];
        if f.season != season {
            before
        } else {
            match before {
                Some(e) => if e > f.episode {
                    Some(e)
                } else {
                    Some(f.episode)
                },
                None => Some(f.episode),
            }
        }
    }
}

fn last_episode_of(files: &Vec<EpisodeFileRow>, season: i64) -> (r: Option<i64>)
    ensures
        r == last_episode(files@, season as int, files@.len() as int),
{
    let mut best: Option<i64> = None;
    for i in 0..files.len()
        invariant
            best == last_episode(files@, season as int, i as int),
    {
        if files[i].season == season {
            let ep: i64 = files[i].episode;
            best = match best {
                Some(e) => {
                    if e > ep {
                        Some(e)
                    } else {
                        Some(ep)
                    }
                },
                None => Some(ep),
            };
        }
    }
    best
}

/// A series as the neighbours of an episode are looked up in it.
pub struct SeriesData {
    /// The caller's follow of the series.
    pub follow: Option<u128>,
    /// The files on disk.
    pub files: Vec<EpisodeFileRow>,
    /// The offers of indexers.
    pub available: Vec<AvailableEpisodeRow>,
}

pub open spec fn located_in(s: SeriesData, season: i64, episode: i64) -> Option<EpisodePoint> {
    located(s.follow, s.files@, s.available@, season, episode)
}

/// The episode after (`season`, `episode`) in its series: the next of the
/// season, or else the first of the next season.
pub open spec fn next_in_series(s: SeriesData, season: i64, episode: i64) -> Option<EpisodePoint> {
    match located_in(s, season, (episode + 1) as i64) {
        Some(p) => Some(p),
        None => located_in(s, (season + 1) as i64, 1),
    }
}

/// The episode before (`season`, `episode`) in its series: the one before it,
/// or for a first episode the last on disk of the previous season.
pub open spec fn prev_in_series(s: SeriesData, season: i64, episode: i64) -> Option<EpisodePoint> {
    if episode > 1 {
        located_in(s, season, (episode - 1) as i64)
    } else if season > 1 {
        match last_episode(s.files@, season - 1, s.files@.len() as int) {
            Some(e) => located_in(s, (season - 1) as i64, e),
            None => None,
        }
    } else {
        None
    }
}

/// The episode after (`season`, `episode`) in its series.
pub fn next_episode(s: &SeriesData, season: i64, episode: i64) -> (r: Option<EpisodePoint>)
    requires
        season < i64::MAX,
        episode < i64::MAX,
    ensures
        r == next_in_series(*s, season, episode),
{
    let same_season = lookup_next_episode(s.follow, &s.files, &s.available, season, episode + 1);
    if same_season.is_some() {
        same_season
    } else {
        lookup_next_episode(s.follow, &s.files, &s.available, season + 1, 1)
    }
}

/// The episode before (`season`, `episode`) in its series.
pub fn prev_episode(s: &SeriesData, season: i64, episode: i64) -> (r: Option<EpisodePoint>)
    ensures
        r == prev_in_series(*s, season, episode),
{
    if episode > 1 {
        lookup_next_episode(s.follow, &s.files, &s.available, season, episode - 1)
    } else if season > 1 {
        match last_episode_of(&s.files, season - 1) {
            Some(e) => lookup_next_episode(s.follow, &s.files, &s.available, season - 1, e),
            None => None,
        }
    } else {
        None
    }
}

pub open spec fn or_point(a: Option<EpisodePoint>, b: Option<EpisodePoint>) -> Option<EpisodePoint> {
    match a {
        Some(p) => Some(p),
        None => b,
    }
}

/// The episode being played and its neighbours. `current` is the file being
/// played, if it is a known episode; `series` its series, if that has a
/// normalised name; `following` and `preceding` the files next to it in its
/// torrent, which stand in where the series gives no neighbour.
pub fn episode_context(
    current: Option<EpisodeFileRow>,
    series: Option<SeriesData>,
    file_idx: i64,
    following: Option<EpisodeFileRow>,
    preceding: Option<EpisodeFileRow>,
) -> (r: EpisodeContext)
    requires
        current is Some && series is Some ==> current->0.season < i64::MAX && current->0.episode
            < i64::MAX,
    ensures
        r.followed == (current is Some && series is Some && series->0.follow is Some),
        r.current == match current {
            Some(c) => Some(
                (EpisodePoint {
                    follow_id: match series {
                        Some(s) => s.follow,
                        None => None,
                    },
                    season: c.season,
                    episode: c.episode,
                    status: EpisodeStatus::Downloaded,
                    infohash: Some(c.infohash),
                    file_idx: Some(c.file_idx),
                }),
            ),
            None => None,
        },
        r.next == match (current, series) {
            (Some(c), Some(s)) => or_point(
                next_in_series(s, c.season, c.episode),
                sibling_point(following),
            ),
            _ => sibling_point(following),
        },
        r.prev == {
            let fallback = if file_idx > 0 {
                sibling_point(preceding)
            } else {
                None
            };
            match (current, series) {
                (Some(c), Some(s)) => or_point(prev_in_series(s, c.season, c.episode), fallback),
                _ => fallback,
            }
        },
{
    let after = same_torrent_next(following);
    let before = if file_idx > 0 {
        same_torrent_next(preceding)
    } else {
        None
    };
    match current {
        None => EpisodeContext { followed: false, current: None, next: after, prev: before },
        Some(c) => match series {
            None => EpisodeContext {
                followed: false,
                current: Some(
                    EpisodePoint {
                        follow_id: None,
                        season: c.season,
                        episode: c.episode,
                        status: EpisodeStatus::Downloaded,
                        infohash: Some(c.infohash),
                        file_idx: Some(c.file_idx),
                    },
                ),
                next: after,
                prev: before,
            },
            Some(s) => {
                let n = next_episode(&s, c.season, c.episode);
                let p = prev_episode(&s, c.season, c.episode);
                EpisodeContext {
                    followed: s.follow.is_some(),
                    current: Some(
                        EpisodePoint {
                            follow_id: s.follow,
                            season: c.season,
                            episode: c.episode,
                            status: EpisodeStatus::Downloaded,
                            infohash: Some(c.infohash),
                            file_idx: Some(c.file_idx),
                        },
                    ),
                    next: if n.is_some() {
                        n
                    } else {
                        after
                    },
                    prev: if p.is_some() {
                        p
                    } else {
                        before
                    },
                }
            },
        },
    }
}

/// An unfollowed series never offers to fetch an episode: every neighbour is
/// on disk.
pub proof fn unfollowed_neighbours_are_on_disk(s: SeriesData, season: i64, episode: i64)
    requires
        s.follow is None,
    ensures
        next_in_series(s, season, episode) matches Some(p) ==> p.status
            == EpisodeStatus::Downloaded,
        prev_in_series(s, season, episode) matches Some(p) ==> p.status
            == EpisodeStatus::Downloaded,
{
}

// ---------------------------------------------------------------------------
// The file of an episode, by language
// ---------------------------------------------------------------------------

/// The files that hold an episode, each with its language.
pub open spec fn files_holding(
    rows: Seq<(EpisodeFileRow, Language)>,
    season: i64,
    episode: i64,
) -> Seq<(EpisodeFileRow, Language)>
    decreases rows.len(),
{
    if rows.len() == 0 {
        seq![]
    } else {
        let before = files_holding(rows.drop_last(), season, episode);
        let r = rows.last();
        if r.0.season == season && r.0.episode == episode {
            before.push(r)
        } else {
            before
        }
    }
}

/// Files on disk are always sane: the download is complete.
pub open spec fn disk_tags(files: Seq<(EpisodeFileRow, Language)>) -> Seq<Tag> {
    Seq::new(files.len(), |i: int| (files[i].1, true))
}

/// The file on disk that a language selection picks for an episode.
pub open spec fn picked_file(
    rows: Seq<(EpisodeFileRow, Language)>,
    season: i64,
    episode: i64,
    sel: LangSel,
) -> Option<EpisodeFileRow> {
    let files = files_holding(rows, season, episode);
    match language::selected(disk_tags(files), sel) {
        Some(i) => Some(files[i].0),
        None => None,
    }
}

/// The file on disk that a language selection picks for an episode.
pub fn find_episode_file(
    rows: Vec<(EpisodeFileRow, Language)>,
    season: i64,
    episode: i64,
    sel: &LangSel,
) -> (r: Option<EpisodeFileRow>)
    ensures
        r == picked_file(rows@, season, episode, *sel),
{
    let ghost all = rows@;
    let mut files: Vec<(EpisodeFileRow, Language)> = Vec::new();
    let mut tags: Vec<Tag> = Vec::new();
    assert(files@ =~= files_holding(all.take(0), season, episode));
    for row in it: rows
        invariant
            it.seq() == all,
            files@ == files_holding(all.take(it.index()), season, episode),
            tags@ == disk_tags(files@),
    {
        proof {
            assert(all.take(it.index() + 1).drop_last() =~= all.take(it.index()));
            assert(all.take(it.index() + 1).last() == row);
        }
        if row.0.season == season && row.0.episode == episode {
            tags.push((row.1, true));
            files.push(row);
            assert(tags@ =~= disk_tags(files@));
        }
    }
    assert(all.take(all.len() as int) =~= all);
    match language::select_index(&tags, sel) {
        Some(i) => {
            let (f, _lang) = files.remove(i);
            Some(f)
        },
        None => None,
    }
}

/// With no preference the first file of the episode is picked.
pub proof fn any_takes_first_file(rows: Seq<(EpisodeFileRow, Language)>, season: i64, episode: i64)
    ensures
        picked_file(rows, season, episode, LangSel::Any) == if files_holding(
            rows,
            season,
            episode,
        ).len() == 0 {
            None
        } else {
            Some(files_holding(rows, season, episode)[0].0)
        },
{
}

// ---------------------------------------------------------------------------
// Laws
// ---------------------------------------------------------------------------

/// A name to follow a series by is what was typed between the white space
/// around it; nothing but white space is no name.
pub proof fn series_is_followed_by_what_was_typed(
    typed: &str,
    bare: String,
    r: Result<String, ApiError>,
)
    requires
        call_ensures(text::trim, (typed,), bare),
        call_ensures(follow_name, (typed,), r),
    ensures
        r is Ok == (bare@.len() > 0),
        r matches Ok(t) ==> t@ == bare@,
{
}

/// A series is known by its normalised name, which may not be empty.
pub proof fn empty_identity_is_refused(normalized: String, r: Result<String, ApiError>)
    requires
        call_ensures(follow_identity, (normalized,), r),
    ensures
        normalized@.len() > 0 ==> r == Ok::<String, ApiError>(normalized),
        normalized@.len() == 0 ==> r is Err,
{
}

/// TMDB is asked for the trusted entry, and for nothing where it is not
/// configured or none is trusted.
pub proof fn trusted_entry_is_looked_up(configured: bool, trusted: Option<i64>, r: Option<u64>)
    requires
        call_ensures(poster_lookup, (configured, trusted), r),
    ensures
        r is Some == (configured && trusted is Some),
        r is Some && trusted->0 >= 0 ==> r->0 == trusted->0,
{
}

/// A summary shows the pictures and the count that were found, nothing where
/// none were, and the row for the rest.
pub proof fn summary_shows_what_was_found(
    row: &FollowRow,
    paths: Option<(Option<String>, Option<String>)>,
    new_count: Option<i64>,
    r: FollowSummary,
)
    requires
        call_ensures(summarize, (row, paths, new_count), r),
    ensures
        r.id == row.id && r.name == row.name && r.normalized_name == row.normalized_name
            && r.tmdb_id == row.tmdb_id && r.last_visited_at == row.last_visited_at
            && r.created_at == row.created_at,
        paths matches Some(p) ==> (r.poster_path, r.backdrop_path) == p,
        paths is None ==> r.poster_path is None && r.backdrop_path is None,
        new_count is Some ==> r.new_count == new_count->0,
        new_count is None ==> r.new_count == 0,
{
}

/// Deleting what is not there is an error, and only that is.
pub proof fn absent_cannot_be_removed(removed: bool, r: Result<(), ApiError>)
    requires
        call_ensures(removal_outcome, (removed,), r),
    ensures
        r is Ok == removed,
        r matches Err(e) ==> e@ is NotFound,
{
}

/// A follow speaks for a series before its collection does; a collection only
/// where it is of television and has a normalised title.
pub proof fn follow_comes_before_collection(
    follow: Option<FollowRow>,
    collection: Option<SeriesCollection>,
    r: Option<FollowishIdentity>,
)
    requires
        call_ensures(resolve_followish, (follow, collection), r),
    ensures
        follow matches Some(f) ==> r is Some && r->0.source is SeriesFollow
            && r->0.normalized_name == f.normalized_name && r->0.display_name == f.name
            && r->0.tmdb_id == f.tmdb_id,
        follow is None && r is Some ==> r->0.source is Collection && collection is Some && Some(
            r->0.normalized_name,
        ) == collection->0.parsed_title_normalized && r->0.display_name
            == collection->0.display_title && r->0.tmdb_id == collection->0.tmdb_id
            && collection->0.kind@ == "tv"@,
        follow is None && collection is Some && collection->0.kind@ == "tv"@
            && collection->0.parsed_title_normalized is Some ==> r is Some,
{
}

/// A file that was asked for: of the wanted season, where one is wanted.
spec fn asked(filter: Option<u32>, season: i64) -> bool {
    filter is None || season == filter->0
}

proof fn lemma_file_items(files: Seq<(EpisodeFileRow, bool)>, filter: Option<u32>, key: EpisodeKey)
    ensures
        episode_map::in_order(disk_items(files, filter)),
        match episode_map::lookup(disk_items(files, filter), key) {
            Some(item) => exists|i: int|
                0 <= i < files.len() && asked(filter, files[i].0.season) && (
                files[i].0.season, files[i].0.episode) == key && item == disk_item(
                    (#[trigger] files[i]).0,
                    files[i].1,
                ) && forall|j: int|
                    i < j < files.len() ==> ((#[trigger] files[j]).0.season, files[j].0.episode)
                        != key,
            None => forall|i: int|
                0 <= i < files.len() && asked(filter, files[i].0.season) ==> ((
                #[trigger] files[i]).0.season, files[i].0.episode) != key,
        },
    decreases files.len(),
{
    if files.len() > 0 {
        let t = files.drop_last();
        let before = disk_items(t, filter);
        let (f, watched) = files.last();
        let k = (f.season, f.episode);
        lemma_file_items(t, filter, key);
        episode_map::put_keeps_order(before, k, disk_item(f, watched), false);
        episode_map::lookup_after_put(before, k, disk_item(f, watched), false, key);
        assert forall|i: int| 0 <= i < t.len() implies #[trigger] t[i] == files[i] by {}
        assert(files[files.len() - 1] == (f, watched));
        if let Some(item) = episode_map::lookup(disk_items(files, filter), key) {
            if !(season_passes(filter, f.season) && k == key) {
                let i = choose|i: int|
                    0 <= i < t.len() && asked(filter, t[i].0.season) && (
                    t[i].0.season, t[i].0.episode) == key && item == disk_item(
                        (#[trigger] t[i]).0,
                        t[i].1,
                    ) && forall|j: int|
                        i < j < t.len() ==> ((#[trigger] t[j]).0.season, t[j].0.episode) != key;
                assert(files[i] == t[i]);
                assert forall|j: int| i < j < files.len() implies ((
                #[trigger] files[j]).0.season, files[j].0.episode) != key by {
                    if j < t.len() {
                        assert(t[j] == files[j]);
                    }
                }
            }
        } else {
            assert forall|i: int|
                0 <= i < files.len() && asked(filter, files[i].0.season) implies ((
            #[trigger] files[i]).0.season, files[i].0.episode) != key by {
                if i < t.len() {
                    assert(t[i] == files[i]);
                }
            }
        }
    }
}

proof fn lemma_offer_items(
    base: Seq<(EpisodeKey, EpisodeItem)>,
    available: Seq<AvailableEpisodeRow>,
    filter: Option<u32>,
    key: EpisodeKey,
)
    requires
        episode_map::in_order(base),
        episode_map::lookup(base, key) is None,
    ensures
        match episode_map::lookup(with_offers(base, available, filter), key) {
            Some(item) => exists|i: int|
                0 <= i < available.len() && asked(filter, available[i].season) && (
                available[i].season, available[i].episode) == key && item == offered_item(
                    #[trigger] available[i],
                ) && forall|j: int|
                    0 <= j < i ==> ((#[trigger] available[j]).season, available[j].episode) != key,
            None => forall|i: int|
                0 <= i < available.len() && asked(filter, available[i].season) ==> ((
                #[trigger] available[i]).season, available[i].episode) != key,
        },
    decreases available.len(),
{
    if available.len() > 0 {
        let t = available.drop_last();
        let before = with_offers(base, t, filter);
        let a = available.last();
        let k = (a.season, a.episode);
        lemma_with_offers(base, t, filter, key);
        lemma_offer_items(base, t, filter, key);
        episode_map::lookup_after_put(before, k, offered_item(a), true, key);
        assert forall|i: int| 0 <= i < t.len() implies #[trigger] t[i] == available[i] by {}
        assert(available[available.len() - 1] == a);
        if let Some(item) = episode_map::lookup(before, key) {
            let i = choose|i: int|
                0 <= i < t.len() && asked(filter, t[i].season) && (t[i].season, t[i].episode)
                    == key && item == offered_item(#[trigger] t[i]) && forall|j: int|
                    0 <= j < i ==> ((#[trigger] t[j]).season, t[j].episode) != key;
            assert(available[i] == t[i]);
            assert forall|j: int| 0 <= j < i implies ((
            #[trigger] available[j]).season, available[j].episode) != key by {
                assert(t[j] == available[j]);
            }
        } else {
            assert forall|j: int| 0 <= j < t.len() && asked(filter, available[j].season) implies ((
            #[trigger] available[j]).season, available[j].episode) != key by {
                assert(t[j] == available[j]);
            }
            if season_passes(filter, a.season) && k == key {
                assert forall|j: int| 0 <= j < t.len() implies ((
                #[trigger] available[j]).season, available[j].episode) != key by {
                    assert(t[j] == available[j]);
                }
            }
        }
    }
}

proof fn lemma_entry_is_found<V>(l: Seq<(EpisodeKey, V)>, i: int)
    requires
        episode_map::in_order(l),
        0 <= i < l.len(),
    ensures
        episode_map::lookup(l, l[i].0) == Some(l[i].1),
    decreases l.len(),
{
    let t = l.drop_first();
    assert(episode_map::in_order(t)) by {
        assert forall|a: int, b: int| 0 <= a < b < t.len() implies episode_map::key_lt(
            (#[trigger] t[a]).0,
            (#[trigger] t[b]).0,
        ) by {
            assert(episode_map::key_lt(l[a + 1].0, l[b + 1].0));
        }
    }
    if i > 0 {
        assert(episode_map::key_lt(l[0].0, l[i].0));
        assert(t[i - 1] == l[i]);
        lemma_entry_is_found(t, i - 1);
    }
}

/// The episodes of a series come by season and episode, each once. Each is of a
/// season that was asked for. One that is on disk is listed as the last file of
/// it tells, and one that is not as the first offer of it tells.
pub proof fn episodes_come_from_disk_or_offers(
    files: Vec<(EpisodeFileRow, bool)>,
    available: Vec<AvailableEpisodeRow>,
    season: Option<u32>,
    r: Vec<EpisodeItem>,
    n: int,
)
    requires
        call_ensures(episodes, (files, available, season), r),
        0 <= n < r@.len(),
    ensures
        forall|a: int, b: int|
            0 <= a < b < r@.len() ==> (#[trigger] r@[a]).season < (#[trigger] r@[b]).season || (
            r@[a].season == r@[b].season && r@[a].episode < r@[b].episode),
        season is Some ==> r@[n].season == season->0,
        r@[n].status is Downloaded ==> exists|i: int|
            0 <= i < files@.len() && (#[trigger] files@[i]).0.season == r@[n].season
                && files@[i].0.episode == r@[n].episode && r@[n].watched == files@[i].1
                && r@[n].infohash == Some(files@[i].0.infohash) && r@[n].file_idx == Some(
                files@[i].0.file_idx,
            ) && r@[n].indexer_torrent_id is None && forall|j: int|
                i < j < files@.len() ==> (#[trigger] files@[j]).0.season != r@[n].season
                    || files@[j].0.episode != r@[n].episode,
        r@[n].status is Available ==> !r@[n].watched && r@[n].infohash is None && (forall|j: int|
            0 <= j < files@.len() ==> (#[trigger] files@[j]).0.season != r@[n].season
                || files@[j].0.episode != r@[n].episode) && exists|i: int|
            0 <= i < available@.len() && (#[trigger] available@[i]).season == r@[n].season
                && available@[i].episode == r@[n].episode && r@[n].indexer_provider == Some(
                available@[i].indexer_provider,
            ) && r@[n].indexer_torrent_id == Some(available@[i].indexer_torrent_id) && r@[n].quality
                == available@[i].quality && r@[n].seeders == available@[i].seeders && forall|j: int|
                0 <= j < i ==> (#[trigger] available@[j]).season != r@[n].season
                    || available@[j].episode != r@[n].episode,
{
    let l = merged_episodes(files@, available@, season);
    let d = disk_items(files@, season);
    assert(r@.len() == l.len());
    assert forall|a: int| 0 <= a < l.len() implies #[trigger] r@[a] == l[a].1 && (
    r@[a].season, r@[a].episode) == l[a].0 && (season is Some ==> r@[a].season == season->0) by {
        let key = l[a].0;
        lemma_disk_items(files@, season, key);
        lemma_with_offers(d, available@, season, key);
        lemma_file_items(files@, season, key);
        lemma_entry_is_found(l, a);
        if episode_map::lookup(d, key) is None {
            lemma_offer_items(d, available@, season, key);
        }
    }
    let key = l[n].0;
    assert(r@[n] == l[n].1);
    lemma_disk_items(files@, season, key);
    lemma_with_offers(d, available@, season, key);
    lemma_file_items(files@, season, key);
    lemma_entry_is_found(l, n);
    if episode_map::lookup(d, key) is None {
        lemma_offer_items(d, available@, season, key);
    }
    assert forall|a: int, b: int| 0 <= a < b < r@.len() implies (#[trigger] r@[a]).season < (
    #[trigger] r@[b]).season || (r@[a].season == r@[b].season && r@[a].episode < r@[b].episode) by {
        assert(episode_map::key_lt(l[a].0, l[b].0));
    }
}

/// No episode that was asked for is missing, be it on disk or on offer.
pub proof fn no_episode_is_missing(
    files: Vec<(EpisodeFileRow, bool)>,
    available: Vec<AvailableEpisodeRow>,
    season: Option<u32>,
    r: Vec<EpisodeItem>,
    i: int,
)
    requires
        call_ensures(episodes, (files, available, season), r),
    ensures
        0 <= i < files@.len() && (season is None || files@[i].0.season == season->0) ==> exists|
            n: int,
        |
            0 <= n < r@.len() && (#[trigger] r@[n]).season == files@[i].0.season && r@[n].episode
                == files@[i].0.episode && r@[n].status is Downloaded,
        0 <= i < available@.len() && (season is None || available@[i].season == season->0)
            ==> exists|n: int|
            0 <= n < r@.len() && (#[trigger] r@[n]).season == available@[i].season && r@[n].episode
                == available@[i].episode,
{
    let l = merged_episodes(files@, available@, season);
    let d = disk_items(files@, season);
    if 0 <= i < files@.len() && (season is None || files@[i].0.season == season->0) {
        let key = (files@[i].0.season, files@[i].0.episode);
        lemma_file_items(files@, season, key);
        lemma_with_offers(d, available@, season, key);
        lemma_listed(files, available, season, r, key);
    }
    if 0 <= i < available@.len() && (season is None || available@[i].season == season->0) {
        let key = (available@[i].season, available@[i].episode);
        lemma_disk_items(files@, season, key);
        lemma_file_items(files@, season, key);
        lemma_with_offers(d, available@, season, key);
        if episode_map::lookup(d, key) is None {
            lemma_offer_items(d, available@, season, key);
        }
        lemma_listed(files, available, season, r, key);
    }
}

proof fn lemma_listed(
    files: Vec<(EpisodeFileRow, bool)>,
    available: Vec<AvailableEpisodeRow>,
    season: Option<u32>,
    r: Vec<EpisodeItem>,
    key: EpisodeKey,
)
    requires
        call_ensures(episodes, (files, available, season), r),
        episode_map::lookup(merged_episodes(files@, available@, season), key) is Some,
    ensures
        exists|n: int|
            0 <= n < r@.len() && #[trigger] r@[n] == episode_map::lookup(
                merged_episodes(files@, available@, season),
                key,
            )->0,
{
    let l = merged_episodes(files@, available@, season);
    episode_map::found_stands_under_its_key(l, key);
    let e = (key, episode_map::lookup(l, key)->0);
    let n = choose|n: int| 0 <= n < l.len() && l[n] == e;
    assert(r@[n] == e.1);
}

proof fn lemma_file_of(files: Seq<EpisodeFileRow>, season: int, episode: int, from: int)
    requires
        0 <= from,
    ensures
        match file_of(files, season, episode, from) {
            Some(f) => exists|i: int|
                from <= i < files.len() && #[trigger] files[i] == f && f.season == season
                    && f.episode == episode && forall|j: int|
                    from <= j < i ==> (#[trigger] files[j]).season != season || files[j].episode
                        != episode,
            None => forall|j: int|
                from <= j < files.len() ==> (#[trigger] files[j]).season != season
                    || files[j].episode != episode,
        },
    decreases files.len() - from,
{
    if from < files.len() {
        if files[from].season == season && files[from].episode == episode {
            assert(files[from] == file_of(files, season, episode, from)->0);
        } else {
            lemma_file_of(files, season, episode, from + 1);
        }
    }
}

/// An episode is on disk.
pub open spec fn on_disk(files: Seq<EpisodeFileRow>, season: int, episode: int) -> bool {
    exists|i: int|
        0 <= i < files.len() && (#[trigger] files[i]).season == season && files[i].episode
            == episode
}

/// Where an episode can be had: on disk in the first file that holds it, else
/// on offer for whoever follows the series; nowhere else.
pub proof fn episode_is_where_it_can_be_had(
    follow: Option<u128>,
    files: &Vec<EpisodeFileRow>,
    available: &Vec<AvailableEpisodeRow>,
    season: i64,
    episode: i64,
    r: Option<EpisodePoint>,
)
    requires
        call_ensures(lookup_next_episode, (follow, files, available, season, episode), r),
    ensures
        r matches Some(p) ==> p.season == season && p.episode == episode && p.follow_id == follow,
        r is Some && r->0.status is Downloaded ==> exists|i: int|
            0 <= i < files@.len() && (#[trigger] files@[i]).season == season && files@[i].episode
                == episode && r->0.infohash == Some(files@[i].infohash) && r->0.file_idx == Some(
                files@[i].file_idx,
            ) && forall|j: int|
                0 <= j < i ==> (#[trigger] files@[j]).season != season || files@[j].episode
                    != episode,
        r is Some && r->0.status is Available ==> r->0.infohash is None && r->0.file_idx is None
            && follow is Some,
        on_disk(files@, season as int, episode as int) ==> r is Some && r->0.status is Downloaded,
        !on_disk(files@, season as int, episode as int) ==> (r is Some) == (follow is Some
            && exists|i: int|
            0 <= i < available@.len() && (#[trigger] available@[i]).season == season
                && available@[i].episode == episode),
        !on_disk(files@, season as int, episode as int) && r is Some ==> r->0.status is Available,
{
    lemma_file_of(files@, season as int, episode as int, 0);
}

/// The episode after one is its successor in the season where that can be had,
/// else the opener of the next season.
pub proof fn successor_comes_next(
    s: &SeriesData,
    season: i64,
    episode: i64,
    successor: Option<EpisodePoint>,
    opener: Option<EpisodePoint>,
    r: Option<EpisodePoint>,
)
    requires
        season < i64::MAX,
        episode < i64::MAX,
        call_ensures(
            lookup_next_episode,
            (s.follow, &s.files, &s.available, season, (episode + 1) as i64),
            successor,
        ),
        call_ensures(
            lookup_next_episode,
            (s.follow, &s.files, &s.available, (season + 1) as i64, 1i64),
            opener,
        ),
        call_ensures(next_episode, (s, season, episode), r),
    ensures
        successor is Some ==> r == successor,
        successor is None ==> r == opener,
        on_disk(s.files@, season as int, episode + 1) ==> r is Some && r->0.season == season
            && r->0.episode == episode + 1 && r->0.status is Downloaded,
        r is Some ==> r->0.season == season && r->0.episode == episode + 1 || r->0.season == season
            + 1 && r->0.episode == 1,
{
    lemma_file_of(s.files@, season as int, episode + 1, 0);
}

proof fn lemma_last_episode(files: Seq<EpisodeFileRow>, season: int, n: int)
    requires
        0 <= n <= files.len(),
    ensures
        match last_episode(files, season, n) {
            Some(e) => {
                &&& exists|i: int|
                    0 <= i < n && (#[trigger] files[i]).season == season && files[i].episode == e
                &&& forall|i: int|
                    0 <= i < n && (#[trigger] files[i]).season == season ==> files[i].episode <= e
            },
            None => forall|i: int| 0 <= i < n ==> (#[trigger] files[i]).season != season,
        },
    decreases n,
{
    if n > 0 {
        lemma_last_episode(files, season, n - 1);
        assert(files[n - 1].season == files[n - 1].season);
    }
}

/// The episode before one that is not the first is its predecessor in the
/// season or none; before a first one comes the last on disk of the season
/// before, or none.
pub proof fn predecessor_comes_before(
    s: &SeriesData,
    season: i64,
    episode: i64,
    r: Option<EpisodePoint>,
)
    requires
        call_ensures(prev_episode, (s, season, episode), r),
    ensures
        episode > 1 && r is Some ==> r->0.season == season && r->0.episode == episode - 1,
        episode > 1 && on_disk(s.files@, season as int, episode - 1) ==> r is Some && r->0.status
            is Downloaded,
        episode > 1 && !on_disk(s.files@, season as int, episode - 1) ==> (r is Some) == (s.follow
            is Some && exists|i: int|
            0 <= i < s.available@.len() && (#[trigger] s.available@[i]).season == season
                && s.available@[i].episode == episode - 1),
        episode <= 1 && season <= 1 ==> r is None,
        episode <= 1 && season > 1 ==> match r {
            Some(p) => {
                &&& p.season == season - 1
                &&& p.status is Downloaded
                &&& on_disk(s.files@, season - 1, p.episode as int)
                &&& forall|i: int|
                    0 <= i < s.files@.len() && (#[trigger] s.files@[i]).season == season - 1
                        ==> s.files@[i].episode <= p.episode
            },
            None => forall|i: int|
                0 <= i < s.files@.len() ==> (#[trigger] s.files@[i]).season != season - 1,
        },
{
    if episode > 1 {
        lemma_file_of(s.files@, season as int, episode - 1, 0);
    } else if season > 1 {
        lemma_last_episode(s.files@, season - 1, s.files@.len() as int);
        if let Some(e) = last_episode(s.files@, season - 1, s.files@.len() as int) {
            lemma_file_of(s.files@, season - 1, e as int, 0);
        }
    }
}

/// Where an episode and its successor are both on disk, each is the other's
/// neighbour.
pub proof fn neighbours_on_disk_are_mutual(
    s: &SeriesData,
    season: i64,
    episode: i64,
    next: Option<EpisodePoint>,
    prev: Option<EpisodePoint>,
)
    requires
        0 < episode < i64::MAX,
        season < i64::MAX,
        on_disk(s.files@, season as int, episode as int),
        on_disk(s.files@, season as int, episode + 1),
        call_ensures(next_episode, (s, season, episode), next),
        call_ensures(prev_episode, (s, season, (episode + 1) as i64), prev),
    ensures
        next is Some && next->0.season == season && next->0.episode == episode + 1
            && next->0.status is Downloaded,
        prev is Some && prev->0.season == season && prev->0.episode == episode && prev->0.status
            is Downloaded,
{
    lemma_file_of(s.files@, season as int, episode + 1, 0);
    lemma_file_of(s.files@, season as int, episode as int, 0);
}

/// A file that shares a torrent with the one being played is offered as it is
/// on disk, by the episode that it holds.
pub proof fn file_next_door_is_on_disk(row: Option<EpisodeFileRow>, r: Option<EpisodePoint>)
    requires
        call_ensures(same_torrent_next, (row,), r),
    ensures
        r is Some == row is Some,
        r matches Some(p) ==> p.season == row->0.season && p.episode == row->0.episode && p.status
            is Downloaded && p.infohash == Some(row->0.infohash) && p.file_idx == Some(
            row->0.file_idx,
        ) && p.follow_id is None,
{
}

/// Around an episode of a known series stand its neighbours in the series; the
/// files next door in the torrent stand in where the series gives none, the one
/// in front only behind the first file.
pub proof fn series_comes_before_the_torrent(
    c: EpisodeFileRow,
    s: SeriesData,
    file_idx: i64,
    following: Option<EpisodeFileRow>,
    preceding: Option<EpisodeFileRow>,
    next: Option<EpisodePoint>,
    prev: Option<EpisodePoint>,
    after: Option<EpisodePoint>,
    before: Option<EpisodePoint>,
    r: EpisodeContext,
)
    requires
        c.season < i64::MAX,
        c.episode < i64::MAX,
        call_ensures(next_episode, (&s, c.season, c.episode), next),
        call_ensures(prev_episode, (&s, c.season, c.episode), prev),
        call_ensures(same_torrent_next, (following,), after),
        call_ensures(same_torrent_next, (preceding,), before),
        call_ensures(episode_context, (Some(c), Some(s), file_idx, following, preceding), r),
    ensures
        next is Some ==> r.next == next,
        next is None ==> r.next == after,
        prev is Some ==> r.prev == prev,
        prev is None && file_idx > 0 ==> r.prev == before,
        prev is None && file_idx <= 0 ==> r.prev is None,
        r.followed == s.follow is Some,
        r.current matches Some(p) && p.season == c.season && p.episode == c.episode
            && p.infohash == Some(c.infohash) && p.file_idx == Some(c.file_idx) && p.status
            is Downloaded && p.follow_id == s.follow,
{
}

/// Without a series, or for a file that is no known episode, the files next
/// door are all there is.
pub proof fn torrent_alone_gives_neighbours(
    current: Option<EpisodeFileRow>,
    series: Option<SeriesData>,
    file_idx: i64,
    following: Option<EpisodeFileRow>,
    preceding: Option<EpisodeFileRow>,
    after: Option<EpisodePoint>,
    before: Option<EpisodePoint>,
    r: EpisodeContext,
)
    requires
        current is None || series is None,
        call_ensures(same_torrent_next, (following,), after),
        call_ensures(same_torrent_next, (preceding,), before),
        call_ensures(episode_context, (current, series, file_idx, following, preceding), r),
    ensures
        r.next == after,
        r.prev == if file_idx > 0 {
            before
        } else {
            None
        },
        !r.followed,
        r.current is Some == current is Some,
        r.current matches Some(p) ==> p.season == current->0.season && p.episode
            == current->0.episode && p.infohash == Some(current->0.infohash) && p.follow_id is None,
{
}

proof fn lemma_files_holding(rows: Seq<(EpisodeFileRow, Language)>, season: i64, episode: i64)
    ensures
        files_holding(rows, season, episode) == rows.filter(
            |r: (EpisodeFileRow, Language)| r.0.season == season && r.0.episode == episode,
        ),
    decreases rows.len(),
{
    reveal(Seq::filter);
    if rows.len() > 0 {
        lemma_files_holding(rows.drop_last(), season, episode);
    }
}

/// The file of an episode is one that holds it. With no preference it is the
/// first such; a demand for a language is met by the first such in it, or not
/// at all; a preference is met by the first such in the earliest preferred
/// language that has one, and by the first of all where none has. It fails only
/// where no file that would do holds the episode.
pub proof fn file_of_the_language_is_found(
    rows: Vec<(EpisodeFileRow, Language)>,
    season: i64,
    episode: i64,
    sel: &LangSel,
    r: Option<EpisodeFileRow>,
) -> (n: int)
    requires
        call_ensures(find_episode_file, (rows, season, episode, sel), r),
    ensures
        ({
            let files = rows@.filter(
                |r: (EpisodeFileRow, Language)| r.0.season == season && r.0.episode == episode,
            );
            match r {
                Some(f) => {
                    &&& 0 <= n < files.len()
                    &&& files[n].0 == f
                    &&& match sel {
                        LangSel::Any => n == 0,
                        LangSel::Exact(l) => files[n].1 == l && forall|j: int|
                            0 <= j < n ==> (#[trigger] files[j]).1 != l,
                        LangSel::Prefer(order) => {
                            &&& order@.contains(files[n].1) ==> (forall|j: int|
                                0 <= j < n ==> (#[trigger] files[j]).1 != files[n].1) && exists|
                                k: int,
                            |
                                0 <= k < order@.len() && #[trigger] order@[k] == files[n].1
                                    && forall|m: int, j: int|
                                    0 <= m < k && 0 <= j < files.len() ==> #[trigger] order@[m] != (
                                    #[trigger] files[j]).1
                            &&& !order@.contains(files[n].1) ==> n == 0 && forall|j: int|
                                0 <= j < files.len() ==> !order@.contains((#[trigger] files[j]).1)
                        },
                    }
                },
                None => match sel {
                    LangSel::Exact(l) => forall|j: int|
                        0 <= j < files.len() ==> (#[trigger] files[j]).1 != l,
                    _ => files.len() == 0,
                },
            }
        }),
{
    lemma_files_holding(rows@, season, episode);
    let files = files_holding(rows@, season, episode);
    let tags = disk_tags(files);
    assert forall|j: int| 0 <= j < files.len() implies #[trigger] tags[j] == (files[j].1, true) by {}
    language::selection_of_sane(tags, *sel);
    match language::selected(tags, *sel) {
        Some(i) => {
            assert forall|j: int| 0 <= j < files.len() implies (#[trigger] files[j]).1 == tags[j].0 by {
            }
            if let LangSel::Prefer(order) = sel {
                if order@.contains(tags[i].0) {
                    let k = choose|k: int|
                        0 <= k < order@.len() && #[trigger] order@[k] == tags[i].0 && forall|
                            m: int,
                            j: int,
                        |
                            0 <= m < k && 0 <= j < tags.len() ==> #[trigger] order@[m] != (
                            #[trigger] tags[j]).0;
                    assert(order@[k] == files[i].1);
                    assert forall|m: int, j: int|
                        0 <= m < k && 0 <= j < files.len() implies #[trigger] order@[m] != (
                    #[trigger] files[j]).1 by {
                        assert(order@[m] != tags[j].0);
                    }
                }
            }
            i
        },
        None => {
            assert forall|j: int| 0 <= j < files.len() implies (#[trigger] files[j]).1 == tags[j].0 by {
            }
            0
        },
    }
}

/// A filter lets its own season through and no other; without one every
/// season passes.
pub proof fn filter_lets_its_season_through(filter: Option<u32>, season: i64, r: bool)
    requires
        call_ensures(season_wanted, (filter, season), r),
    ensures
        filter is None ==> r,
        filter is Some ==> (r <==> season == filter->0),
{
}

} // verus!
