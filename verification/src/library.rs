//! The library: collections, their episodes on disk, what can be added to
//! them, and what used to be there.

use vstd::prelude::*;
use vstd::string::StringExecFns;

use crate::api_error;
use crate::api_error::{ApiError, Failure};
use crate::follows::EpisodeFileRow;
use crate::grab::AvailableEpisodeRow;
use crate::language::Language;
use crate::order;
use crate::order::Ranked;
use crate::search;
use crate::search::MediaKind;
use crate::text;

verus! {

// ---------------------------------------------------------------------------
// Listing
// ---------------------------------------------------------------------------

/// A collection as it is listed from the database.
#[derive(Debug, Clone)]
pub struct CollectionSummary {
    pub id: u128,
    pub tmdb_id: Option<i64>,
    pub display_title: String,
    pub kind: String,
    pub is_anime: bool,
    pub torrent_count: i64,
    pub total_size_bytes: i64,
    pub episode_count: i64,
    pub representative_infohash: Option<String>,
}

/// A collection as a client sees it in the list.
#[derive(Debug, Clone)]
pub struct CollectionListItem {
    pub id: u128,
    pub tmdb_id: Option<i64>,
    pub display_title: String,
    pub kind: MediaKind,
    pub is_anime: bool,
    pub torrent_count: i64,
    pub total_size_bytes: i64,
    pub episode_count: i64,
    pub representative_infohash: Option<String>,
    /// Everything of it was reclaimed, but the caller has watched some.
    pub is_ghost: bool,
}

/// A torrent of the database.
#[derive(Debug, Clone)]
pub struct TorrentRow {
    pub id: u128,
    pub infohash: String,
    pub added_by: u128,
    pub added_by_name: String,
    /// Milliseconds since the Unix epoch.
    pub added_at: i64,
    pub last_played_at: Option<i64>,
    pub source_provider: Option<String>,
    pub source_external_id: Option<String>,
    pub tmdb_id: Option<i64>,
    pub tmdb_verified: bool,
    pub kind: Option<String>,
    pub collection_id: Option<u128>,
    pub uploaded_bytes_total: i64,
}

/// A torrent as a client sees it, next to the engine's own snapshot.
#[derive(Debug, Clone)]
pub struct TorrentView {
    pub id: u128,
    pub infohash: String,
    pub added_by: u128,
    pub added_by_name: String,
    pub added_at: i64,
    pub last_played_at: Option<i64>,
    pub source_provider: Option<String>,
    pub source_external_id: Option<String>,
    pub tmdb_id: Option<i64>,
    pub tmdb_verified: bool,
    pub kind: Option<MediaKind>,
    pub collection_id: Option<u128>,
    pub uploaded_bytes_total: u64,
}

/// Whether a request asks for the list of torrents; anything else gets the
/// collections.
pub fn wants_torrents(view: Option<&str>) -> (r: bool)
    ensures
        r == (text::opt_str_view(view) == Some("torrents"@)),
{
    match view {
        Some(v) => text::same_text(v, "torrents"),
        None => false,
    }
}

pub open spec fn kind_or_tv(kind: Seq<char>) -> MediaKind {
    match search::kind_of_word(kind) {
        Some(k) => k,
        None => MediaKind::Tv,
    }
}

fn stored_kind(kind: &str) -> (r: MediaKind)
    ensures
        r == kind_or_tv(kind@),
{
    match MediaKind::from_wire(kind) {
        Some(k) => k,
        None => MediaKind::Tv,
    }
}

pub open spec fn list_item(s: CollectionSummary, is_ghost: bool) -> CollectionListItem {
    CollectionListItem {
        id: s.id,
        tmdb_id: s.tmdb_id,
        display_title: s.display_title,
        kind: kind_or_tv(s.kind@),
        is_anime: s.is_anime,
        torrent_count: s.torrent_count,
        total_size_bytes: s.total_size_bytes,
        episode_count: s.episode_count,
        representative_infohash: s.representative_infohash,
        is_ghost,
    }
}

pub open spec fn list_items(rows: Seq<CollectionSummary>, is_ghost: bool) -> Seq<CollectionListItem> {
    Seq::new(rows.len(), |i: int| list_item(rows[i], is_ghost))
}

fn to_items(rows: Vec<CollectionSummary>, is_ghost: bool) -> (r: Vec<CollectionListItem>)
    ensures
        r@ == list_items(rows@, is_ghost),
{
    let ghost all = rows@;
    let mut out: Vec<CollectionListItem> = Vec::new();
    for s in it: rows
        invariant
            it.seq() == all,
            out@ == list_items(all, is_ghost).take(it.index()),
    {
        assert(s == all[it.index()]);
        let kind = stored_kind(s.kind.as_str());
        out.push(
            CollectionListItem {
                id: s.id,
                tmdb_id: s.tmdb_id,
                display_title: s.display_title,
                kind,
                is_anime: s.is_anime,
                torrent_count: s.torrent_count,
                total_size_bytes: s.total_size_bytes,
                episode_count: s.episode_count,
                representative_infohash: s.representative_infohash,
                is_ghost,
            },
        );
        assert(list_items(all, is_ghost).take(it.index() + 1) =~= list_items(all, is_ghost).take(
            it.index(),
        ).push(list_items(all, is_ghost)[it.index()]));
    }
    assert(list_items(all, is_ghost).take(all.len() as int) =~= list_items(all, is_ghost));
    out
}

/// The collections of the library, followed by the caller's ghosts.
pub fn list_library(summaries: Vec<CollectionSummary>, ghosts: Vec<CollectionSummary>) -> (r: Vec<
    CollectionListItem,
>)
    ensures
        r@ == list_items(summaries@, false) + list_items(ghosts@, true),
{
    let mut items = to_items(summaries, false);
    let mut tail = to_items(ghosts, true);
    items.append(&mut tail);
    items
}

pub open spec fn view_of(row: TorrentRow) -> TorrentView {
    TorrentView {
        id: row.id,
        infohash: row.infohash,
        added_by: row.added_by,
        added_by_name: row.added_by_name,
        added_at: row.added_at,
        last_played_at: row.last_played_at,
        source_provider: row.source_provider,
        source_external_id: row.source_external_id,
        tmdb_id: row.tmdb_id,
        tmdb_verified: row.tmdb_verified,
        kind: match row.kind {
            Some(k) => search::kind_of_word(k@),
            None => None,
        },
        collection_id: row.collection_id,
        uploaded_bytes_total: if row.uploaded_bytes_total >= 0 {
            row.uploaded_bytes_total as u64
        } else {
            0
        },
    }
}

/// The views of the torrents that the engine knows.
pub open spec fn views_of(rows: Seq<(TorrentRow, bool)>) -> Seq<TorrentView>
    decreases rows.len(),
{
    if rows.len() == 0 {
        seq![]
    } else {
        let before = views_of(rows.drop_last());
        let (row, known) = rows.last();
        if known {
            before.push(view_of(row))
        } else {
            before
        }
    }
}

/// The views of the torrents that the engine knows; each row comes with
/// whether it does.
pub fn torrent_views(rows: Vec<(TorrentRow, bool)>) -> (r: Vec<TorrentView>)
    ensures
        r@ == views_of(rows@),
{
    let ghost all = rows@;
    let mut out: Vec<TorrentView> = Vec::new();
    assert(out@ =~= views_of(all.take(0)));
    for e in it: rows
        invariant
            it.seq() == all,
            out@ == views_of(all.take(it.index())),
    {
        proof {
            assert(all.take(it.index() + 1).drop_last() =~= all.take(it.index()));
            assert(all.take(it.index() + 1).last() == e);
        }
        let (row, known) = e;
        if known {
            let kind = match &row.kind {
                Some(k) => MediaKind::from_wire(k.as_str()),
                None => None,
            };
            let uploaded: u64 = if row.uploaded_bytes_total >= 0 {
                row.uploaded_bytes_total as u64
            } else {
                0
            };
            out.push(
                TorrentView {
                    id: row.id,
                    infohash: row.infohash,
                    added_by: row.added_by,
                    added_by_name: row.added_by_name,
                    added_at: row.added_at,
                    last_played_at: row.last_played_at,
                    source_provider: row.source_provider,
                    source_external_id: row.source_external_id,
                    tmdb_id: row.tmdb_id,
                    tmdb_verified: row.tmdb_verified,
                    kind,
                    collection_id: row.collection_id,
                    uploaded_bytes_total: uploaded,
                },
            );
        }
    }
    assert(all.take(all.len() as int) =~= all);
    out
}

// ---------------------------------------------------------------------------
// Entries of a collection
// ---------------------------------------------------------------------------

/// An episode file on disk.
#[derive(Debug, Clone)]
pub struct EpisodeEntry {
    pub season: i64,
    pub episode: i64,
    pub infohash: String,
    pub file_idx: i64,
    /// The caller has watched it to the end.
    pub watched: bool,
    pub language: Language,
    pub absolute_episode: Option<i64>,
}

/// An episode that an indexer offers.
#[derive(Debug, Clone)]
pub struct AvailableEpisodeEntry {
    pub season: i64,
    pub episode: i64,
    pub indexer_provider: String,
    pub indexer_torrent_id: String,
    pub quality: Option<String>,
    pub seeders: Option<i64>,
    pub size_bytes: Option<i64>,
    pub found_at: i64,
    pub language: Option<String>,
    pub absolute_episode: Option<i64>,
}

/// A season pack that an indexer offers.
#[derive(Debug, Clone)]
pub struct SeasonPackEntry {
    pub season: i64,
    pub indexer_provider: String,
    pub indexer_torrent_id: String,
    pub quality: Option<String>,
    pub seeders: Option<i64>,
    pub size_bytes: Option<i64>,
    pub found_at: i64,
    pub language: Option<String>,
}

/// A reclaimed release that can be downloaded again.
#[derive(Debug, Clone)]
pub struct GoneReleaseEntry {
    pub infohash: String,
    pub name: String,
    pub source_provider: String,
    pub source_external_id: String,
    pub total_size_bytes: i64,
    pub deleted_at: Option<i64>,
    pub watched: bool,
    /// Bits of a double-precision number of seconds.
    pub position_bits: Option<u64>,
    pub duration_bits: Option<u64>,
    pub last_watched_at: Option<i64>,
}

/// An episode of a reclaimed release.
#[derive(Debug, Clone)]
pub struct GoneEpisodeEntry {
    pub season: i64,
    pub episode: i64,
    pub absolute_episode: Option<i64>,
    pub infohash: String,
    pub file_idx: i64,
    pub watched: bool,
    pub position_bits: Option<u64>,
    pub duration_bits: Option<u64>,
    pub last_watched_at: Option<i64>,
    pub language: Language,
    pub release_name: String,
    pub source_provider: String,
    pub source_external_id: String,
}

pub open spec fn pair_lt(a: (i64, i64), b: (i64, i64)) -> bool {
    a.0 < b.0 || (a.0 == b.0 && a.1 < b.1)
}

impl Ranked for EpisodeEntry {
    /// By season, episode and file.
    open spec fn before(self, other: Self) -> bool {
        ||| self.season < other.season
        ||| self.season == other.season && self.episode < other.episode
        ||| self.season == other.season && self.episode == other.episode && self.file_idx
            < other.file_idx
    }

    proof fn before_is_strict_weak_order(a: Self, b: Self, c: Self) {
    }

    fn sorts_before(&self, other: &Self) -> (r: bool) {
        self.season < other.season || (self.season == other.season && self.episode
            < other.episode) || (self.season == other.season && self.episode == other.episode
            && self.file_idx < other.file_idx)
    }
}

impl Ranked for AvailableEpisodeEntry {
    /// By season and episode.
    open spec fn before(self, other: Self) -> bool {
        pair_lt((self.season, self.episode), (other.season, other.episode))
    }

    proof fn before_is_strict_weak_order(a: Self, b: Self, c: Self) {
    }

    fn sorts_before(&self, other: &Self) -> (r: bool) {
        self.season < other.season || (self.season == other.season && self.episode < other.episode)
    }
}

pub open spec fn or_empty(s: Option<String>) -> Seq<char> {
    match s {
        Some(t) => t@,
        None => ""@,
    }
}

fn or_blank(s: &Option<String>) -> (r: &str)
    ensures
        r@ == or_empty(*s),
{
    match s {
        Some(t) => t.as_str(),
        None => "",
    }
}

impl Ranked for SeasonPackEntry {
    /// By season and language tag.
    open spec fn before(self, other: Self) -> bool {
        ||| self.season < other.season
        ||| self.season == other.season && text::text_lt(
            or_empty(self.language),
            or_empty(other.language),
        )
    }

    proof fn before_is_strict_weak_order(a: Self, b: Self, c: Self) {
        let (x, y, z) = (or_empty(a.language), or_empty(b.language), or_empty(c.language));
        text::text_lt_is_total_order(x, y, z);
        text::text_lt_is_total_order(z, y, x);
        text::text_lt_is_total_order(x, z, y);
        text::text_lt_is_total_order(y, x, z);
    }

    fn sorts_before(&self, other: &Self) -> (r: bool) {
        self.season < other.season || (self.season == other.season && text::sorts_before(
            or_blank(&self.language),
            or_blank(&other.language),
        ))
    }
}

// ---------------------------------------------------------------------------
// Layout
// ---------------------------------------------------------------------------

/// Among `pairs` of an episode number and whether it has an absolute number,
/// how many are episodes and how many of these have one. Number zero stands
/// for a season pack and does not count.
pub open spec fn numbered(pairs: Seq<(i64, bool)>) -> (nat, nat)
    decreases pairs.len(),
{
    if pairs.len() == 0 {
        (0, 0)
    } else {
        let (total, absolute) = numbered(pairs.drop_last());
        let (episode, has_absolute) = pairs.last();
        if episode == 0 {
            (total, absolute)
        } else if has_absolute {
            (total + 1, absolute + 1)
        } else {
            (total + 1, absolute)
        }
    }
}

pub open spec fn disk_pairs(e: Seq<EpisodeEntry>) -> Seq<(i64, bool)> {
    Seq::new(e.len(), |i: int| (e[i].episode, e[i].absolute_episode is Some))
}

pub open spec fn gone_pairs(e: Seq<GoneEpisodeEntry>) -> Seq<(i64, bool)> {
    Seq::new(e.len(), |i: int| (e[i].episode, e[i].absolute_episode is Some))
}

pub open spec fn offer_pairs(e: Seq<AvailableEpisodeEntry>) -> Seq<(i64, bool)> {
    Seq::new(e.len(), |i: int| (e[i].episode, e[i].absolute_episode is Some))
}

/// Whether episodes are laid out by absolute number: at least half of those on
/// disk have one. Without any on disk those reclaimed decide, and without any
/// of these the offers.
pub open spec fn is_absolute(
    disk: Seq<(i64, bool)>,
    gone: Seq<(i64, bool)>,
    offers: Seq<(i64, bool)>,
) -> bool {
    let (total, absolute) = if numbered(disk).0 > 0 {
        numbered(disk)
    } else if numbered(gone).0 > 0 {
        numbered(gone)
    } else {
        numbered(offers)
    };
    total > 0 && absolute * 2 >= total
}

fn tally(pairs: &Vec<(i64, bool)>) -> (r: (usize, usize))
    ensures
        r.0 == numbered(pairs@).0,
        r.1 == numbered(pairs@).1,
        r.1 <= r.0,
{
    let mut total: usize = 0;
    let mut absolute: usize = 0;
    for i in 0..pairs.len()
        invariant
            total == numbered(pairs@.take(i as int)).0,
            absolute == numbered(pairs@.take(i as int)).1,
            absolute <= total <= i,
    {
        assert(pairs@.take(i + 1).drop_last() =~= pairs@.take(i as int));
        let (episode, has_absolute) = pairs[i];
        if episode != 0 {
            total = total + 1;
            if has_absolute {
                absolute = absolute + 1;
            }
        }
    }
    assert(pairs@.take(pairs.len() as int) =~= pairs@);
    (total, absolute)
}

/// The layout where nothing else is known.
pub fn default_numbering() -> (r: String)
    ensures
        r@ == "seasonal"@,
{
    "seasonal".to_string()
}

/// How a client lays out the episodes of a collection: `absolute` or
/// `seasonal`.
pub fn derive_numbering(
    episodes: &Vec<EpisodeEntry>,
    gone_episodes: &Vec<GoneEpisodeEntry>,
    available: &Vec<AvailableEpisodeEntry>,
) -> (r: String)
    ensures
        r@ == if is_absolute(
            disk_pairs(episodes@),
            gone_pairs(gone_episodes@),
            offer_pairs(available@),
        ) {
            "absolute"@
        } else {
            "seasonal"@
        },
{
    let mut pairs: Vec<(i64, bool)> = Vec::new();
    for i in 0..episodes.len()
        invariant
            pairs@ =~= disk_pairs(episodes@).take(i as int),
    {
        pairs.push((episodes[i].episode, episodes[i].absolute_episode.is_some()));
    }
    assert(pairs@ =~= disk_pairs(episodes@));
    let mut counts = tally(&pairs);
    if counts.0 == 0 {
        let mut pairs: Vec<(i64, bool)> = Vec::new();
        for i in 0..gone_episodes.len()
            invariant
                pairs@ =~= gone_pairs(gone_episodes@).take(i as int),
        {
            pairs.push((gone_episodes[i].episode, gone_episodes[i].absolute_episode.is_some()));
        }
        assert(pairs@ =~= gone_pairs(gone_episodes@));
        counts = tally(&pairs);
    }
    if counts.0 == 0 {
        let mut pairs: Vec<(i64, bool)> = Vec::new();
        for i in 0..available.len()
            invariant
                pairs@ =~= offer_pairs(available@).take(i as int),
        {
            pairs.push((available[i].episode, available[i].absolute_episode.is_some()));
        }
        assert(pairs@ =~= offer_pairs(available@));
        counts = tally(&pairs);
    }
    let (total, absolute) = counts;
    if total > 0 && absolute >= total - absolute {
        "absolute".to_string()
    } else {
        default_numbering()
    }
}

/// What is on disk alone decides the layout, where it holds an episode.
pub proof fn disk_decides_layout(
    disk: Seq<(i64, bool)>,
    gone: Seq<(i64, bool)>,
    offers: Seq<(i64, bool)>,
    gone2: Seq<(i64, bool)>,
    offers2: Seq<(i64, bool)>,
)
    requires
        numbered(disk).0 > 0,
    ensures
        is_absolute(disk, gone, offers) == is_absolute(disk, gone2, offers2),
{
}

// ---------------------------------------------------------------------------
// Languages and ownership
// ---------------------------------------------------------------------------

/// A torrent of a collection, with what its name and provider tell of its
/// language.
#[derive(Debug, Clone)]
pub struct CollectionTorrent {
    pub infohash: String,
    pub source_provider: Option<String>,
    pub source_external_id: Option<String>,
    /// What the name tells.
    pub detected: Language,
    /// The usual language of the provider, where it has one.
    pub provider_default: Option<Language>,
}

/// The last of the first `n` torrents with the infohash, and with a provider
/// if it has to have one.
pub open spec fn last_with(
    torrents: Seq<CollectionTorrent>,
    infohash: Seq<char>,
    with_provider: bool,
    n: int,
) -> Option<CollectionTorrent>
    decreases n,
{
    if n <= 0 || n > torrents.len() {
        None
    } else {
        let t = torrents[n - 1];
        if t.infohash@ == infohash && (with_provider ==> t.source_provider is Some) {
            Some(t)
        } else {
            last_with(torrents, infohash, with_provider, n - 1)
        }
    }
}

/// Language of a torrent: what its name tells, else the usual language of its
/// provider.
pub open spec fn torrent_language(torrents: Seq<CollectionTorrent>, infohash: Seq<char>)
    -> Language {
    let n = torrents.len() as int;
    let detected = match last_with(torrents, infohash, false, n) {
        Some(t) => t.detected,
        None => Language::Unknown,
    };
    if detected != Language::Unknown {
        detected
    } else {
        match last_with(torrents, infohash, true, n) {
            Some(t) => match t.provider_default {
                Some(l) => l,
                None => Language::Unknown,
            },
            None => Language::Unknown,
        }
    }
}

fn find_last(torrents: &Vec<CollectionTorrent>, infohash: &str, with_provider: bool) -> (r: Option<
    usize,
>)
    ensures
        match r {
            Some(i) => i < torrents.len() && last_with(
                torrents@,
                infohash@,
                with_provider,
                torrents@.len() as int,
            ) == Some(torrents@[i as int]),
            None => last_with(torrents@, infohash@, with_provider, torrents@.len() as int) is None,
        },
{
    let mut n: usize = torrents.len();
    while 0 < n
        invariant
            n <= torrents.len(),
            last_with(torrents@, infohash@, with_provider, torrents@.len() as int) == last_with(
                torrents@,
                infohash@,
                with_provider,
                n as int,
            ),
        decreases n,
    {
        let t = &torrents[n - 1];
        if text::same_text(t.infohash.as_str(), infohash) && (!with_provider
            || t.source_provider.is_some()) {
            return Some(n - 1);
        }
        n = n - 1;
    }
    None
}

/// Language of a torrent of a collection.
pub fn resolve_torrent_language(torrents: &Vec<CollectionTorrent>, infohash: &str) -> (r: Language)
    ensures
        r == torrent_language(torrents@, infohash@),
{
    let detected = match find_last(torrents, infohash, false) {
        Some(i) => torrents[i].detected,
        None => Language::Unknown,
    };
    if detected != Language::Unknown {
        return detected;
    }
    match find_last(torrents, infohash, true) {
        Some(i) => match torrents[i].provider_default {
            Some(l) => l,
            None => detected,
        },
        None => detected,
    }
}

/// An owned episode in one language.
pub type OwnedEpisode = (i64, i64, Language);

/// The languages in which each episode is on disk; number zero stands for a
/// season pack and is left out.
pub open spec fn owned_episodes(
    files: Seq<(EpisodeFileRow, bool)>,
    torrents: Seq<CollectionTorrent>,
) -> Seq<OwnedEpisode>
    decreases files.len(),
{
    if files.len() == 0 {
        seq![]
    } else {
        let before = owned_episodes(files.drop_last(), torrents);
        let f = files.last().0;
        if f.episode > 0 {
            before.push((f.season, f.episode, torrent_language(torrents, f.infohash@)))
        } else {
            before
        }
    }
}

/// The languages in which each episode is on disk.
pub fn owned_languages(files: &Vec<(EpisodeFileRow, bool)>, torrents: &Vec<CollectionTorrent>) -> (r:
    Vec<OwnedEpisode>)
    ensures
        r@ == owned_episodes(files@, torrents@),
{
    let mut out: Vec<OwnedEpisode> = Vec::new();
    assert(out@ =~= owned_episodes(files@.take(0), torrents@));
    for i in 0..files.len()
        invariant
            out@ == owned_episodes(files@.take(i as int), torrents@),
    {
        assert(files@.take(i + 1).drop_last() =~= files@.take(i as int));
        let f = &files[i].0;
        if f.episode > 0 {
            let lang = resolve_torrent_language(torrents, f.infohash.as_str());
            out.push((f.season, f.episode, lang));
        }
    }
    assert(files@.take(files.len() as int) =~= files@);
    out
}

/// Whether a language is on disk somewhere in a season.
pub open spec fn season_has(owned: Seq<OwnedEpisode>, season: i64, l: Language) -> bool {
    exists|i: int| 0 <= i < owned.len() && (#[trigger] owned[i]).0 == season && owned[i].2 == l
}

/// The languages on disk per season: every pair that occurs, once.
pub fn season_language_coverage(owned: &Vec<OwnedEpisode>) -> (r: Vec<(i64, Language)>)
    ensures
        r@.no_duplicates(),
        forall|season: i64, l: Language|
            #[trigger] r@.contains((season, l)) <==> season_has(owned@, season, l),
{
    let mut out: Vec<(i64, Language)> = Vec::new();
    for i in 0..owned.len()
        invariant
            out@.no_duplicates(),
            forall|season: i64, l: Language|
                #[trigger] out@.contains((season, l)) <==> season_has(
                    owned@.take(i as int),
                    season,
                    l,
                ),
    {
        let pair = (owned[i].0, owned[i].2);
        let mut seen = false;
        for k in 0..out.len()
            invariant
                seen <==> exists|j: int| 0 <= j < k && out@[j] == pair,
        {
            if out[k].0 == pair.0 && out[k].1 == pair.1 {
                seen = true;
            }
        }
        let ghost before = out@;
        if !seen {
            out.push(pair);
        }
        proof {
            let t0 = owned@.take(i as int);
            let t1 = owned@.take(i + 1);
            assert forall|season: i64, l: Language|
                #[trigger] out@.contains((season, l)) <==> season_has(t1, season, l) by {
                assert(before.contains((season, l)) <==> season_has(t0, season, l));
                if season_has(t0, season, l) {
                    let j = choose|j: int|
                        0 <= j < t0.len() && (#[trigger] t0[j]).0 == season && t0[j].2 == l;
                    assert(t1[j] == t0[j]);
                    let k = choose|k: int| 0 <= k < before.len() && before[k] == (season, l);
                    assert(out@[k] == before[k]);
                }
                if season_has(t1, season, l) {
                    let j = choose|j: int|
                        0 <= j < t1.len() && (#[trigger] t1[j]).0 == season && t1[j].2 == l;
                    if j < i {
                        assert(t0[j] == t1[j]);
                    } else {
                        assert((season, l) == pair);
                        if seen {
                            let k = choose|k: int| 0 <= k < before.len() && before[k] == pair;
                            assert(out@[k] == pair);
                        } else {
                            assert(out@[before.len() as int] == pair);
                        }
                    }
                }
                if out@.contains((season, l)) && !before.contains((season, l)) {
                    let k = choose|k: int| 0 <= k < out@.len() && out@[k] == (season, l);
                    if k < before.len() {
                        assert(before[k] == (season, l));
                    }
                    assert((season, l) == pair);
                    assert(t1[i as int].0 == season);
                }
            }
        }
    }
    assert(owned@.take(owned.len() as int) =~= owned@);
    out
}

/// Whether the torrents of a collection hold the release.
pub open spec fn owns_release(
    torrents: Seq<CollectionTorrent>,
    provider: Seq<char>,
    external_id: Seq<char>,
) -> bool {
    exists|i: int|
        0 <= i < torrents.len() && text::opt_view((#[trigger] torrents[i]).source_provider) == Some(
            provider,
        ) && text::opt_view(torrents[i].source_external_id) == Some(external_id)
}

fn release_owned(torrents: &Vec<CollectionTorrent>, provider: &str, external_id: &str) -> (r: bool)
    ensures
        r == owns_release(torrents@, provider@, external_id@),
{
    for i in 0..torrents.len()
        invariant
            forall|j: int|
                0 <= j < i ==> !(text::opt_view((#[trigger] torrents@[j]).source_provider) == Some(
                    provider@,
                ) && text::opt_view(torrents@[j].source_external_id) == Some(external_id@)),
    {
        match (&torrents[i].source_provider, &torrents[i].source_external_id) {
            (Some(p), Some(e)) => {
                if text::same_text(p.as_str(), provider) && text::same_text(
                    e.as_str(),
                    external_id,
                ) {
                    assert(text::opt_view(torrents@[i as int].source_provider) == Some(provider@));
                    return true;
                }
            },
            _ => {},
        }
    }
    false
}

/// Whether an episode is on disk in a language; a multi-language file counts
/// for every language.
pub open spec fn covered(owned: Seq<OwnedEpisode>, season: i64, episode: i64, l: Language) -> bool {
    exists|i: int|
        0 <= i < owned.len() && (#[trigger] owned[i]).0 == season && owned[i].1 == episode && (
        owned[i].2 == Language::Multi || owned[i].2 == l)
}

fn is_covered(owned: &Vec<OwnedEpisode>, season: i64, episode: i64, l: Language) -> (r: bool)
    ensures
        r == covered(owned@, season, episode, l),
{
    for i in 0..owned.len()
        invariant
            forall|j: int|
                0 <= j < i ==> !((#[trigger] owned@[j]).0 == season && owned@[j].1 == episode && (
                owned@[j].2 == Language::Multi || owned@[j].2 == l)),
    {
        if owned[i].0 == season && owned[i].1 == episode && (owned[i].2 == Language::Multi
            || owned[i].2 == l) {
            assert(owned@[i as int].0 == season);
            return true;
        }
    }
    false
}

// ---------------------------------------------------------------------------
// Offers
// ---------------------------------------------------------------------------

/// Whether an offer for a single episode is worth showing: it is one, its
/// release is not in the collection, the episode is not on disk in its
/// language, and it has seeders.
pub open spec fn shown(
    o: AvailableEpisodeRow,
    owned: Seq<OwnedEpisode>,
    torrents: Seq<CollectionTorrent>,
) -> bool {
    &&& o.episode != 0
    &&& !owns_release(torrents, o.indexer_provider@, o.indexer_torrent_id@)
    &&& !covered(owned, o.season, o.episode, o.language)
    &&& o.seeders matches Some(s) && s > 0
}

pub open spec fn entry_of(o: AvailableEpisodeRow) -> AvailableEpisodeEntry {
    AvailableEpisodeEntry {
        season: o.season,
        episode: o.episode,
        indexer_provider: o.indexer_provider,
        indexer_torrent_id: o.indexer_torrent_id,
        quality: o.quality,
        seeders: o.seeders,
        size_bytes: o.size_bytes,
        found_at: o.found_at,
        language: o.language_tag,
        absolute_episode: o.absolute_episode,
    }
}

/// The entries of the offers worth showing.
pub open spec fn shown_entries(
    offers: Seq<AvailableEpisodeRow>,
    owned: Seq<OwnedEpisode>,
    torrents: Seq<CollectionTorrent>,
) -> Seq<AvailableEpisodeEntry>
    decreases offers.len(),
{
    if offers.len() == 0 {
        seq![]
    } else {
        let before = shown_entries(offers.drop_last(), owned, torrents);
        if shown(offers.last(), owned, torrents) {
            before.push(entry_of(offers.last()))
        } else {
            before
        }
    }
}

/// Whether an entry is newer than the caller's last visit.
pub open spec fn is_new(found_at: i64, last_visited: Option<i64>) -> bool {
    last_visited matches Some(t) ==> found_at > t
}

pub open spec fn new_entries(entries: Seq<AvailableEpisodeEntry>, last_visited: Option<i64>) -> nat
    decreases entries.len(),
{
    if entries.len() == 0 {
        0
    } else {
        new_entries(entries.drop_last(), last_visited) + if is_new(
            entries.last().found_at,
            last_visited,
        ) {
            1nat
        } else {
            0nat
        }
    }
}

/// `n`, or the largest number that fits.
pub open spec fn saturated(n: nat) -> u32 {
    if n > u32::MAX {
        u32::MAX
    } else {
        n as u32
    }
}

/// The offers worth showing, by season and episode, and how many of them are
/// newer than the caller's last visit.
pub fn build_available_singletons(
    offers: Vec<AvailableEpisodeRow>,
    owned: &Vec<OwnedEpisode>,
    torrents: &Vec<CollectionTorrent>,
    user_last_visited: Option<i64>,
) -> (r: (Vec<AvailableEpisodeEntry>, u32))
    ensures
        r.0@ == order::sorted(shown_entries(offers@, owned@, torrents@)),
        r.1 == saturated(new_entries(shown_entries(offers@, owned@, torrents@), user_last_visited)),
{
    let ghost all = offers@;
    let mut out: Vec<AvailableEpisodeEntry> = Vec::new();
    let mut new_count: u32 = 0;
    assert(out@ =~= shown_entries(all.take(0), owned@, torrents@));
    for o in it: offers
        invariant
            it.seq() == all,
            out@ == shown_entries(all.take(it.index()), owned@, torrents@),
            new_count == saturated(new_entries(out@, user_last_visited)),
    {
        proof {
            assert(all.take(it.index() + 1).drop_last() =~= all.take(it.index()));
            assert(all.take(it.index() + 1).last() == o);
        }
        let alive = match o.seeders {
            Some(s) => s > 0,
            None => false,
        };
        if o.episode != 0 && !release_owned(
            torrents,
            o.indexer_provider.as_str(),
            o.indexer_torrent_id.as_str(),
        ) && !is_covered(owned, o.season, o.episode, o.language) && alive {
            let fresh = match user_last_visited {
                Some(t) => o.found_at > t,
                None => true,
            };
            if fresh && new_count < u32::MAX {
                new_count = new_count + 1;
            }
            let ghost before = out@;
            out.push(
                AvailableEpisodeEntry {
                    season: o.season,
                    episode: o.episode,
                    indexer_provider: o.indexer_provider,
                    indexer_torrent_id: o.indexer_torrent_id,
                    quality: o.quality,
                    seeders: o.seeders,
                    size_bytes: o.size_bytes,
                    found_at: o.found_at,
                    language: o.language_tag,
                    absolute_episode: o.absolute_episode,
                },
            );
            assert(out@.drop_last() =~= before);
        }
    }
    assert(all.take(all.len() as int) =~= all);
    (order::sort(out), new_count)
}

pub open spec fn pack_entry_of(p: AvailableEpisodeRow) -> SeasonPackEntry {
    SeasonPackEntry {
        season: p.season,
        indexer_provider: p.indexer_provider,
        indexer_torrent_id: p.indexer_torrent_id,
        quality: p.quality,
        seeders: p.seeders,
        size_bytes: p.size_bytes,
        found_at: p.found_at,
        language: p.language_tag,
    }
}

/// The entries of the packs whose release is not in the collection.
pub open spec fn pack_entries(
    packs: Seq<AvailableEpisodeRow>,
    torrents: Seq<CollectionTorrent>,
) -> Seq<SeasonPackEntry>
    decreases packs.len(),
{
    if packs.len() == 0 {
        seq![]
    } else {
        let before = pack_entries(packs.drop_last(), torrents);
        let p = packs.last();
        if owns_release(torrents, p.indexer_provider@, p.indexer_torrent_id@) {
            before
        } else {
            before.push(pack_entry_of(p))
        }
    }
}

/// The packs whose release is not in the collection, by season and language.
pub fn build_season_packs(
    packs: Vec<AvailableEpisodeRow>,
    torrents: &Vec<CollectionTorrent>,
) -> (r: Vec<SeasonPackEntry>)
    ensures
        r@ == order::sorted(pack_entries(packs@, torrents@)),
{
    let ghost all = packs@;
    let mut out: Vec<SeasonPackEntry> = Vec::new();
    assert(out@ =~= pack_entries(all.take(0), torrents@));
    for p in it: packs
        invariant
            it.seq() == all,
            out@ == pack_entries(all.take(it.index()), torrents@),
    {
        proof {
            assert(all.take(it.index() + 1).drop_last() =~= all.take(it.index()));
            assert(all.take(it.index() + 1).last() == p);
        }
        if !release_owned(torrents, p.indexer_provider.as_str(), p.indexer_torrent_id.as_str()) {
            out.push(
                SeasonPackEntry {
                    season: p.season,
                    indexer_provider: p.indexer_provider,
                    indexer_torrent_id: p.indexer_torrent_id,
                    quality: p.quality,
                    seeders: p.seeders,
                    size_bytes: p.size_bytes,
                    found_at: p.found_at,
                    language: p.language_tag,
                },
            );
        }
    }
    assert(all.take(all.len() as int) =~= all);
    order::sort(out)
}

// ---------------------------------------------------------------------------
// The television view
// ---------------------------------------------------------------------------

pub open spec fn file_entry(
    f: EpisodeFileRow,
    watched: bool,
    torrents: Seq<CollectionTorrent>,
) -> EpisodeEntry {
    EpisodeEntry {
        season: f.season,
        episode: f.episode,
        infohash: f.infohash,
        file_idx: f.file_idx,
        watched,
        language: torrent_language(torrents, f.infohash@),
        absolute_episode: f.absolute_episode,
    }
}

pub open spec fn file_entries(
    files: Seq<(EpisodeFileRow, bool)>,
    torrents: Seq<CollectionTorrent>,
) -> Seq<EpisodeEntry> {
    Seq::new(files.len(), |i: int| file_entry(files[i].0, files[i].1, torrents))
}

/// The episodes of a television collection.
pub struct TvView {
    pub episodes: Vec<EpisodeEntry>,
    pub available: Vec<AvailableEpisodeEntry>,
    pub packs: Vec<SeasonPackEntry>,
    pub new_count: u32,
}

/// The cached offers for a collection: single episodes, and season packs.
pub struct CachedOffers {
    pub offers: Vec<AvailableEpisodeRow>,
    pub packs: Vec<AvailableEpisodeRow>,
}

/// The episodes of a television collection: every file on disk, with whether
/// the caller has watched it, and what the indexers offer beyond that. A
/// collection without a normalised title has no `cached` offers.
pub fn build_tv_episode_view(
    files: Vec<(EpisodeFileRow, bool)>,
    torrents: &Vec<CollectionTorrent>,
    cached: Option<CachedOffers>,
    user_last_visited: Option<i64>,
) -> (r: TvView)
    ensures
        r.episodes@ == order::sorted(file_entries(files@, torrents@)),
        match cached {
            None => r.available@.len() == 0 && r.packs@.len() == 0 && r.new_count == 0,
            Some(c) => {
                let entries = shown_entries(
                    c.offers@,
                    owned_episodes(files@, torrents@),
                    torrents@,
                );
                &&& r.available@ == order::sorted(entries)
                &&& r.new_count == saturated(new_entries(entries, user_last_visited))
                &&& r.packs@ == order::sorted(pack_entries(c.packs@, torrents@))
            },
        },
{
    let owned = owned_languages(&files, torrents);
    let ghost all = files@;
    let mut entries: Vec<EpisodeEntry> = Vec::new();
    for e in it: files
        invariant
            it.seq() == all,
            entries@ == file_entries(all, torrents@).take(it.index()),
    {
        assert(e == all[it.index()]);
        let (f, watched) = e;
        let lang = resolve_torrent_language(torrents, f.infohash.as_str());
        entries.push(
            EpisodeEntry {
                season: f.season,
                episode: f.episode,
                infohash: f.infohash,
                file_idx: f.file_idx,
                watched,
                language: lang,
                absolute_episode: f.absolute_episode,
            },
        );
        assert(file_entries(all, torrents@).take(it.index() + 1) =~= file_entries(
            all,
            torrents@,
        ).take(it.index()).push(file_entries(all, torrents@)[it.index()]));
    }
    assert(file_entries(all, torrents@).take(all.len() as int) =~= file_entries(all, torrents@));
    let episodes = order::sort(entries);
    match cached {
        None => TvView {
            episodes,
            available: Vec::new(),
            packs: Vec::new(),
            new_count: 0,
        },
        Some(c) => {
            let (available, new_count) = build_available_singletons(
                c.offers,
                &owned,
                torrents,
                user_last_visited,
            );
            let packs = build_season_packs(c.packs, torrents);
            TvView { episodes, available, packs, new_count }
        },
    }
}

/// Every file on disk keeps an entry of its own, whatever its numbers, and
/// the entries come out in order.
pub proof fn every_file_is_listed(
    files: Seq<(EpisodeFileRow, bool)>,
    torrents: Seq<CollectionTorrent>,
)
    ensures
        order::sorted(file_entries(files, torrents)).len() == files.len(),
        order::sorted(file_entries(files, torrents)).to_multiset() == file_entries(
            files,
            torrents,
        ).to_multiset(),
        order::ordered(order::sorted(file_entries(files, torrents))),
{
    order::sorted_is_ordered_permutation(file_entries(files, torrents));
}

/// A multi-language file on disk hides every offer for its episode.
pub proof fn multi_hides_every_offer(
    o: AvailableEpisodeRow,
    owned: Seq<OwnedEpisode>,
    torrents: Seq<CollectionTorrent>,
    i: int,
)
    requires
        0 <= i < owned.len(),
        owned[i] == (o.season, o.episode, Language::Multi),
    ensures
        !shown(o, owned, torrents),
{
}

/// A file on disk in another single language hides nothing: with no other
/// reason against it the offer stays.
pub proof fn other_language_stays_on_offer(
    o: AvailableEpisodeRow,
    owned: Seq<OwnedEpisode>,
    torrents: Seq<CollectionTorrent>,
)
    requires
        o.episode != 0,
        o.seeders matches Some(s) && s > 0,
        !owns_release(torrents, o.indexer_provider@, o.indexer_torrent_id@),
        forall|i: int|
            0 <= i < owned.len() ==> (#[trigger] owned[i]).2 != Language::Multi && owned[i].2
                != o.language,
    ensures
        shown(o, owned, torrents),
{
}

// ---------------------------------------------------------------------------
// What used to be there
// ---------------------------------------------------------------------------

/// A reclaimed torrent.
#[derive(Debug, Clone)]
pub struct DeletedTorrent {
    pub infohash: String,
    pub name: String,
    pub source_provider: Option<String>,
    pub source_external_id: Option<String>,
    pub total_size_bytes: i64,
    pub deleted_at: Option<i64>,
}

/// The caller's progress on a file of a reclaimed torrent.
#[derive(Debug, Clone)]
pub struct WatchState {
    pub infohash: String,
    pub completed: bool,
    pub position_bits: u64,
    pub duration_bits: Option<u64>,
    pub last_watched_at: i64,
}

/// An episode file of a reclaimed torrent, with the caller's progress.
#[derive(Debug, Clone)]
pub struct GoneEpisodeRow {
    pub season: i64,
    pub episode: i64,
    pub absolute_episode: Option<i64>,
    pub infohash: String,
    pub file_idx: i64,
    pub completed: bool,
    pub position_bits: Option<u64>,
    pub duration_bits: Option<u64>,
    pub last_watched_at: Option<i64>,
    pub torrent_name: String,
    pub source_provider: Option<String>,
    pub source_external_id: Option<String>,
}

/// The first state, from `from` on, of a torrent.
pub open spec fn state_of(watch: Seq<WatchState>, infohash: Seq<char>, from: int) -> Option<
    WatchState,
>
    decreases watch.len() - from,
{
    if from < 0 || from >= watch.len() {
        None
    } else if watch[from].infohash@ == infohash {
        Some(watch[from])
    } else {
        state_of(watch, infohash, from + 1)
    }
}

pub open spec fn gone_release(
    t: DeletedTorrent,
    provider: String,
    external_id: String,
    w: Option<WatchState>,
) -> GoneReleaseEntry {
    GoneReleaseEntry {
        infohash: t.infohash,
        name: t.name,
        source_provider: provider,
        source_external_id: external_id,
        total_size_bytes: t.total_size_bytes,
        deleted_at: t.deleted_at,
        watched: w matches Some(s) && s.completed,
        position_bits: match w {
            Some(s) => Some(s.position_bits),
            None => None,
        },
        duration_bits: match w {
            Some(s) => s.duration_bits,
            None => None,
        },
        last_watched_at: match w {
            Some(s) => Some(s.last_watched_at),
            None => None,
        },
    }
}

/// The reclaimed releases that can be fetched again: those whose origin is
/// known.
pub open spec fn gone_releases(deleted: Seq<DeletedTorrent>, watch: Seq<WatchState>) -> Seq<
    GoneReleaseEntry,
>
    decreases deleted.len(),
{
    if deleted.len() == 0 {
        seq![]
    } else {
        let before = gone_releases(deleted.drop_last(), watch);
        let t = deleted.last();
        match (t.source_provider, t.source_external_id) {
            (Some(p), Some(e)) => before.push(
                gone_release(t, p, e, state_of(watch, t.infohash@, 0)),
            ),
            _ => before,
        }
    }
}

pub open spec fn gone_episode(
    r: GoneEpisodeRow,
    provider: String,
    external_id: String,
    torrents: Seq<CollectionTorrent>,
) -> GoneEpisodeEntry {
    GoneEpisodeEntry {
        season: r.season,
        episode: r.episode,
        absolute_episode: r.absolute_episode,
        infohash: r.infohash,
        file_idx: r.file_idx,
        watched: r.completed,
        position_bits: r.position_bits,
        duration_bits: r.duration_bits,
        last_watched_at: r.last_watched_at,
        language: torrent_language(torrents, r.infohash@),
        release_name: r.torrent_name,
        source_provider: provider,
        source_external_id: external_id,
    }
}

/// The reclaimed episodes that can be fetched again.
pub open spec fn gone_episodes(
    rows: Seq<GoneEpisodeRow>,
    torrents: Seq<CollectionTorrent>,
) -> Seq<GoneEpisodeEntry>
    decreases rows.len(),
{
    if rows.len() == 0 {
        seq![]
    } else {
        let before = gone_episodes(rows.drop_last(), torrents);
        let r = rows.last();
        match (r.source_provider, r.source_external_id) {
            (Some(p), Some(e)) => before.push(gone_episode(r, p, e, torrents)),
            _ => before,
        }
    }
}

fn find_state(watch: &Vec<WatchState>, infohash: &str) -> (r: Option<usize>)
    ensures
        match r {
            Some(i) => i < watch.len() && state_of(watch@, infohash@, 0) == Some(watch@[i as int]),
            None => state_of(watch@, infohash@, 0) is None,
        },
{
    let mut i: usize = 0;
    while i < watch.len()
        invariant
            i <= watch.len(),
            state_of(watch@, infohash@, 0) == state_of(watch@, infohash@, i as int),
        decreases watch.len() - i,
    {
        if text::same_text(watch[i].infohash.as_str(), infohash) {
            return Some(i);
        }
        i = i + 1;
    }
    None
}

/// What used to be in a collection and can be fetched again: the releases,
/// and their episodes, with the caller's progress. `torrents` holds the
/// reclaimed torrents as far as their language is concerned.
pub fn build_gone_view(
    deleted: Vec<DeletedTorrent>,
    watch: &Vec<WatchState>,
    rows: Vec<GoneEpisodeRow>,
    torrents: &Vec<CollectionTorrent>,
) -> (r: (Vec<GoneReleaseEntry>, Vec<GoneEpisodeEntry>))
    ensures
        r.0@ == gone_releases(deleted@, watch@),
        r.1@ == gone_episodes(rows@, torrents@),
{
    let ghost all = deleted@;
    let mut releases: Vec<GoneReleaseEntry> = Vec::new();
    assert(releases@ =~= gone_releases(all.take(0), watch@));
    for t in it: deleted
        invariant
            it.seq() == all,
            releases@ == gone_releases(all.take(it.index()), watch@),
    {
        proof {
            assert(all.take(it.index() + 1).drop_last() =~= all.take(it.index()));
            assert(all.take(it.index() + 1).last() == t);
        }
        let found = find_state(watch, t.infohash.as_str());
        match (t.source_provider, t.source_external_id) {
            (Some(provider), Some(external_id)) => {
                let (watched, position_bits, duration_bits, last_watched_at) = match found {
                    Some(i) => (
                        watch[i].completed,
                        Some(watch[i].position_bits),
                        watch[i].duration_bits,
                        Some(watch[i].last_watched_at),
                    ),
                    None => (false, None, None, None),
                };
                releases.push(
                    GoneReleaseEntry {
                        infohash: t.infohash,
                        name: t.name,
                        source_provider: provider,
                        source_external_id: external_id,
                        total_size_bytes: t.total_size_bytes,
                        deleted_at: t.deleted_at,
                        watched,
                        position_bits,
                        duration_bits,
                        last_watched_at,
                    },
                );
            },
            _ => {},
        }
    }
    assert(all.take(all.len() as int) =~= all);
    let ghost all_rows = rows@;
    let mut episodes: Vec<GoneEpisodeEntry> = Vec::new();
    assert(episodes@ =~= gone_episodes(all_rows.take(0), torrents@));
    for row in it: rows
        invariant
            it.seq() == all_rows,
            episodes@ == gone_episodes(all_rows.take(it.index()), torrents@),
    {
        proof {
            assert(all_rows.take(it.index() + 1).drop_last() =~= all_rows.take(it.index()));
            assert(all_rows.take(it.index() + 1).last() == row);
        }
        let lang = resolve_torrent_language(torrents, row.infohash.as_str());
        match (row.source_provider, row.source_external_id) {
            (Some(provider), Some(external_id)) => {
                episodes.push(
                    GoneEpisodeEntry {
                        season: row.season,
                        episode: row.episode,
                        absolute_episode: row.absolute_episode,
                        infohash: row.infohash,
                        file_idx: row.file_idx,
                        watched: row.completed,
                        position_bits: row.position_bits,
                        duration_bits: row.duration_bits,
                        last_watched_at: row.last_watched_at,
                        language: lang,
                        release_name: row.torrent_name,
                        source_provider: provider,
                        source_external_id: external_id,
                    },
                );
            },
            _ => {},
        }
    }
    assert(all_rows.take(all_rows.len() as int) =~= all_rows);
    (releases, episodes)
}

// ---------------------------------------------------------------------------
// One collection
// ---------------------------------------------------------------------------

/// A collection of the database.
#[derive(Debug, Clone)]
pub struct CollectionRow {
    pub id: u128,
    pub tmdb_id: Option<i64>,
    pub display_title: String,
    pub kind: String,
    pub is_anime: bool,
    pub parsed_title_normalized: Option<String>,
}

/// A collection as its page shows it.
pub struct CollectionDetail {
    pub id: u128,
    pub tmdb_id: Option<i64>,
    pub display_title: String,
    pub kind: MediaKind,
    pub is_anime: bool,
    pub numbering: String,
    pub poster_path: Option<String>,
    pub backdrop_path: Option<String>,
    pub torrents: Vec<TorrentView>,
    pub episodes: Vec<EpisodeEntry>,
    pub available_episodes: Vec<AvailableEpisodeEntry>,
    pub season_packs: Vec<SeasonPackEntry>,
    pub has_new_since_last_visit: u32,
    pub gone_releases: Vec<GoneReleaseEntry>,
    pub gone_episodes: Vec<GoneEpisodeEntry>,
}

/// What the page of a collection is made of, as far as it comes from outside.
pub struct CollectionData {
    /// The torrents, with whether the engine knows each.
    pub torrent_rows: Vec<(TorrentRow, bool)>,
    /// The torrents as far as language and origin are concerned.
    pub torrents: Vec<CollectionTorrent>,
    /// The episode files, with whether the caller has watched each.
    pub files: Vec<(EpisodeFileRow, bool)>,
    pub cached: Option<CachedOffers>,
    pub user_last_visited: Option<i64>,
    /// Poster and backdrop.
    pub paths: Option<(Option<String>, Option<String>)>,
    pub deleted: Vec<DeletedTorrent>,
    pub watch: Vec<WatchState>,
    pub gone_rows: Vec<GoneEpisodeRow>,
    /// The reclaimed torrents as far as language is concerned.
    pub gone_torrents: Vec<CollectionTorrent>,
}

/// The page of a collection.
pub fn collection_detail(collection: Option<CollectionRow>, data: CollectionData) -> (r: Result<
    CollectionDetail,
    ApiError,
>)
    ensures
        match (collection, r) {
            (None, Err(e)) => e@ == Failure::NotFound,
            (Some(c), Ok(d)) => {
                let entries = shown_entries(
                    data.cached->0.offers@,
                    owned_episodes(data.files@, data.torrents@),
                    data.torrents@,
                );
                &&& d.id == c.id
                &&& d.tmdb_id == c.tmdb_id
                &&& d.display_title == c.display_title
                &&& d.kind == kind_or_tv(c.kind@)
                &&& d.is_anime == c.is_anime
                &&& d.poster_path == match data.paths {
                    Some(p) => p.0,
                    None => None,
                }
                &&& d.backdrop_path == match data.paths {
                    Some(p) => p.1,
                    None => None,
                }
                &&& d.torrents@ == views_of(data.torrent_rows@)
                &&& d.gone_releases@ == gone_releases(data.deleted@, data.watch@)
                &&& d.gone_episodes@ == gone_episodes(data.gone_rows@, data.gone_torrents@)
                &&& d.episodes@ == if c.kind@ == "tv"@ {
                    order::sorted(file_entries(data.files@, data.torrents@))
                } else {
                    Seq::empty()
                }
                &&& if c.kind@ == "tv"@ && data.cached is Some {
                    &&& d.available_episodes@ == order::sorted(entries)
                    &&& d.has_new_since_last_visit == saturated(
                        new_entries(entries, data.user_last_visited),
                    )
                    &&& d.season_packs@ == order::sorted(
                        pack_entries(data.cached->0.packs@, data.torrents@),
                    )
                } else {
                    &&& d.available_episodes@.len() == 0
                    &&& d.season_packs@.len() == 0
                    &&& d.has_new_since_last_visit == 0
                }
                &&& d.numbering@ == if is_absolute(
                    disk_pairs(d.episodes@),
                    gone_pairs(d.gone_episodes@),
                    offer_pairs(d.available_episodes@),
                ) {
                    "absolute"@
                } else {
                    "seasonal"@
                }
            },
            _ => false,
        },
{
    match collection {
        None => Err(ApiError::NotFound),
        Some(c) => {
            let torrents = torrent_views(data.torrent_rows);
            let view = if text::same_text(c.kind.as_str(), "tv") {
                build_tv_episode_view(
                    data.files,
                    &data.torrents,
                    data.cached,
                    data.user_last_visited,
                )
            } else {
                TvView {
                    episodes: Vec::new(),
                    available: Vec::new(),
                    packs: Vec::new(),
                    new_count: 0,
                }
            };
            let (gone_releases, gone_episodes) = build_gone_view(
                data.deleted,
                &data.watch,
                data.gone_rows,
                &data.gone_torrents,
            );
            let numbering = derive_numbering(&view.episodes, &gone_episodes, &view.available);
            let (poster_path, backdrop_path) = match data.paths {
                Some(p) => p,
                None => (None, None),
            };
            let kind = stored_kind(c.kind.as_str());
            Ok(
                CollectionDetail {
                    id: c.id,
                    tmdb_id: c.tmdb_id,
                    display_title: c.display_title,
                    kind,
                    is_anime: c.is_anime,
                    numbering,
                    poster_path,
                    backdrop_path,
                    torrents,
                    episodes: view.episodes,
                    available_episodes: view.available,
                    season_packs: view.packs,
                    has_new_since_last_visit: view.new_count,
                    gone_releases,
                    gone_episodes,
                },
            )
        },
    }
}

/// The normalised title by which an episode of a collection is downloaded:
/// only television collections with one qualify.
pub fn grab_collection_episode(collection: Option<CollectionRow>) -> (r: Result<String, ApiError>)
    ensures
        match collection {
            None => r matches Err(e) && e@ == Failure::NotFound,
            Some(c) => if c.kind@ != "tv"@ {
                r matches Err(e) && e@ == Failure::BadRequest(
                    "grab only valid for TV collections"@,
                )
            } else {
                match c.parsed_title_normalized {
                    None => r matches Err(e) && e@ == Failure::BadRequest(
                        "collection has no SCENE identity — cannot resolve episode"@,
                    ),
                    Some(n) => r == Ok::<String, ApiError>(n),
                }
            },
        },
{
    match collection {
        None => Err(ApiError::NotFound),
        Some(c) => {
            if !text::same_text(c.kind.as_str(), "tv") {
                return Err(api_error::bad_request("grab only valid for TV collections"));
            }
            match c.parsed_title_normalized {
                None => Err(
                    api_error::bad_request(
                        "collection has no SCENE identity — cannot resolve episode",
                    ),
                ),
                Some(n) => Ok(n),
            }
        },
    }
}

// ---------------------------------------------------------------------------
// Laws
// ---------------------------------------------------------------------------

/// The list of torrents is given only where it is asked for by name.
pub proof fn torrents_are_asked_for_by_name(view: Option<&str>, r: bool)
    requires
        call_ensures(wants_torrents, (view,), r),
    ensures
        r == (view is Some && view->0@ == "torrents"@),
{
}

/// The library lists every collection and then every ghost, each as it is
/// stored; a kind that is no known word counts as television.
pub proof fn ghosts_come_last(
    summaries: Vec<CollectionSummary>,
    ghosts: Vec<CollectionSummary>,
    r: Vec<CollectionListItem>,
    i: int,
)
    requires
        call_ensures(list_library, (summaries, ghosts), r),
        0 <= i < r@.len(),
    ensures
        r@.len() == summaries@.len() + ghosts@.len(),
        r@[i].is_ghost == (i >= summaries@.len()),
        ({
            let s = if i < summaries@.len() {
                summaries@[i]
            } else {
                ghosts@[i - summaries@.len()]
            };
            &&& r@[i].id == s.id && r@[i].tmdb_id == s.tmdb_id && r@[i].display_title
                == s.display_title
            &&& r@[i].is_anime == s.is_anime && r@[i].torrent_count == s.torrent_count
            &&& r@[i].total_size_bytes == s.total_size_bytes && r@[i].episode_count
                == s.episode_count
            &&& r@[i].representative_infohash == s.representative_infohash
            &&& r@[i].kind is Movie == (s.kind@ == "movie"@)
        }),
{
    reveal_strlit("movie");
    reveal_strlit("tv");
    assert("movie"@.len() == 5 && "tv"@.len() == 2);
}

/// A view tells of its torrent what is stored; a negative number of uploaded
/// bytes counts as none.
pub proof fn view_tells_of_its_torrent(row: TorrentRow)
    ensures
        view_of(row).id == row.id && view_of(row).infohash == row.infohash,
        view_of(row).added_by == row.added_by && view_of(row).added_by_name == row.added_by_name
            && view_of(row).added_at == row.added_at,
        view_of(row).last_played_at == row.last_played_at && view_of(row).collection_id
            == row.collection_id,
        view_of(row).source_provider == row.source_provider && view_of(row).source_external_id
            == row.source_external_id,
        view_of(row).tmdb_id == row.tmdb_id && view_of(row).tmdb_verified == row.tmdb_verified,
        row.uploaded_bytes_total >= 0 ==> view_of(row).uploaded_bytes_total
            == row.uploaded_bytes_total,
        row.uploaded_bytes_total < 0 ==> view_of(row).uploaded_bytes_total == 0,
        row.kind is None ==> view_of(row).kind is None,
        forall|w: &str, k: Option<MediaKind>|
            row.kind is Some && w@ == row.kind->0@ && #[trigger] call_ensures(
                MediaKind::from_wire,
                (w,),
                k,
            ) ==> view_of(row).kind == k,
{
}

proof fn lemma_views_of(rows: Seq<(TorrentRow, bool)>)
    ensures
        views_of(rows) == rows.filter(|x: (TorrentRow, bool)| x.1).map_values(
            |x: (TorrentRow, bool)| view_of(x.0),
        ),
    decreases rows.len(),
{
    reveal(Seq::filter);
    let f = |x: (TorrentRow, bool)| view_of(x.0);
    let p = |x: (TorrentRow, bool)| x.1;
    if rows.len() > 0 {
        lemma_views_of(rows.drop_last());
        assert(views_of(rows) =~= rows.filter(p).map_values(f));
    } else {
        assert(views_of(rows) =~= rows.filter(p).map_values(f));
    }
}

/// The torrents that the engine knows are shown, all of them, in order, and no
/// others.
pub proof fn known_torrents_are_shown(rows: Vec<(TorrentRow, bool)>, r: Vec<TorrentView>)
    requires
        call_ensures(torrent_views, (rows,), r),
    ensures
        r@ == rows@.filter(|x: (TorrentRow, bool)| x.1).map_values(
            |x: (TorrentRow, bool)| view_of(x.0),
        ),
{
    lemma_views_of(rows@);
}

/// Episodes, which are those with a number.
pub open spec fn with_number() -> spec_fn((i64, bool)) -> bool {
    |p: (i64, bool)| p.0 != 0
}

/// Episodes with an absolute number.
pub open spec fn with_absolute() -> spec_fn((i64, bool)) -> bool {
    |p: (i64, bool)| p.0 != 0 && p.1
}

proof fn lemma_numbered(pairs: Seq<(i64, bool)>)
    ensures
        numbered(pairs).0 == pairs.filter(with_number()).len(),
        numbered(pairs).1 == pairs.filter(with_absolute()).len(),
    decreases pairs.len(),
{
    reveal(Seq::filter);
    if pairs.len() > 0 {
        lemma_numbered(pairs.drop_last());
    }
}

/// Episodes are laid out by absolute number exactly where at least half of them
/// have one; those on disk count, without any of these those reclaimed, and
/// without any of these the offers. Packs do not count, and without an episode
/// at all the layout is by season.
pub proof fn half_decides_the_layout(
    episodes: &Vec<EpisodeEntry>,
    gone: &Vec<GoneEpisodeEntry>,
    available: &Vec<AvailableEpisodeEntry>,
    disk_pairs: Seq<(i64, bool)>,
    gone_pairs: Seq<(i64, bool)>,
    offer_pairs: Seq<(i64, bool)>,
    r: String,
)
    requires
        call_ensures(derive_numbering, (episodes, gone, available), r),
        disk_pairs == Seq::new(
            episodes@.len(),
            |i: int| (episodes@[i].episode, episodes@[i].absolute_episode is Some),
        ),
        gone_pairs == Seq::new(
            gone@.len(),
            |i: int| (gone@[i].episode, gone@[i].absolute_episode is Some),
        ),
        offer_pairs == Seq::new(
            available@.len(),
            |i: int| (available@[i].episode, available@[i].absolute_episode is Some),
        ),
    ensures
        r@ == "absolute"@ || r@ == "seasonal"@,
        ({
            let pairs = if disk_pairs.filter(with_number()).len() > 0 {
                disk_pairs
            } else if gone_pairs.filter(with_number()).len() > 0 {
                gone_pairs
            } else {
                offer_pairs
            };
            let total = pairs.filter(with_number()).len();
            (r@ == "absolute"@) == (total > 0 && 2 * pairs.filter(with_absolute()).len() >= total)
        }),
{
    assert(disk_pairs =~= crate::library::disk_pairs(episodes@));
    assert(gone_pairs =~= crate::library::gone_pairs(gone@));
    assert(offer_pairs =~= crate::library::offer_pairs(available@));
    lemma_numbered(disk_pairs);
    lemma_numbered(gone_pairs);
    lemma_numbered(offer_pairs);
    reveal_strlit("absolute");
    reveal_strlit("seasonal");
    assert("absolute"@[0] == 'a' && "seasonal"@[0] == 's');
}

/// Without anything else known, episodes are laid out by season.
pub proof fn seasons_are_the_default(r: String)
    requires
        call_ensures(default_numbering, (), r),
    ensures
        r@ == "seasonal"@,
{
}

proof fn lemma_last_with(
    torrents: Seq<CollectionTorrent>,
    infohash: Seq<char>,
    with_provider: bool,
    n: int,
)
    requires
        0 <= n <= torrents.len(),
    ensures
        match last_with(torrents, infohash, with_provider, n) {
            Some(t) => exists|i: int|
                0 <= i < n && #[trigger] torrents[i] == t && t.infohash@ == infohash && (
                with_provider ==> t.source_provider is Some) && forall|j: int|
                    i < j < n ==> (#[trigger] torrents[j]).infohash@ != infohash || (with_provider
                        && torrents[j].source_provider is None),
            None => forall|j: int|
                0 <= j < n ==> (#[trigger] torrents[j]).infohash@ != infohash || (with_provider
                    && torrents[j].source_provider is None),
        },
    decreases n,
{
    if n > 0 {
        lemma_last_with(torrents, infohash, with_provider, n - 1);
        assert(torrents[n - 1] == torrents[n - 1]);
    }
}

/// The language of a torrent is what its last entry tells, and where that tells
/// none the usual language of the provider of its last entry that has one; a
/// torrent without an entry is in an unknown language.
pub proof fn name_tells_before_provider(
    torrents: &Vec<CollectionTorrent>,
    infohash: &str,
    r: Language,
    i: int,
    k: int,
)
    requires
        call_ensures(resolve_torrent_language, (torrents, infohash), r),
    ensures
        0 <= i < torrents@.len() && torrents@[i].infohash@ == infohash@ && (forall|j: int|
            i < j < torrents@.len() ==> (#[trigger] torrents@[j]).infohash@ != infohash@)
            && !(torrents@[i].detected is Unknown) ==> r == torrents@[i].detected,
        0 <= i < torrents@.len() && torrents@[i].infohash@ == infohash@ && (forall|j: int|
            i < j < torrents@.len() ==> (#[trigger] torrents@[j]).infohash@ != infohash@)
            && torrents@[i].detected is Unknown && 0 <= k < torrents@.len()
            && torrents@[k].infohash@ == infohash@ && torrents@[k].source_provider is Some && (
        forall|j: int|
            k < j < torrents@.len() ==> (#[trigger] torrents@[j]).infohash@ != infohash@
                || torrents@[j].source_provider is None) ==> (torrents@[k].provider_default is Some
            ==> r == torrents@[k].provider_default->0) && (torrents@[k].provider_default is None
            ==> r is Unknown),
        (forall|j: int|
            0 <= j < torrents@.len() ==> (#[trigger] torrents@[j]).infohash@ != infohash@) ==> r
            is Unknown,
        !(r is Unknown) ==> exists|j: int|
            0 <= j < torrents@.len() && (#[trigger] torrents@[j]).infohash@ == infohash@ && (
            torrents@[j].detected == r || torrents@[j].provider_default == Some(r)),
{
    let n = torrents@.len() as int;
    lemma_last_with(torrents@, infohash@, false, n);
    lemma_last_with(torrents@, infohash@, true, n);
    if 0 <= i < n && torrents@[i].infohash@ == infohash@ {
        assert(torrents@[i].infohash@ == infohash@);
    }
    if 0 <= k < n && torrents@[k].infohash@ == infohash@ {
        assert(torrents@[k].infohash@ == infohash@);
    }
}

/// Files of episodes, which are those with a positive number.
pub open spec fn of_an_episode() -> spec_fn((EpisodeFileRow, bool)) -> bool {
    |f: (EpisodeFileRow, bool)| f.0.episode > 0
}

/// A file as the language of its torrent tells.
pub open spec fn owned_in(torrents: Seq<CollectionTorrent>) -> spec_fn(
    (EpisodeFileRow, bool),
) -> OwnedEpisode {
    |f: (EpisodeFileRow, bool)|
        (f.0.season, f.0.episode, torrent_language(torrents, f.0.infohash@))
}

proof fn lemma_owned_episodes(
    files: Seq<(EpisodeFileRow, bool)>,
    torrents: Seq<CollectionTorrent>,
)
    ensures
        owned_episodes(files, torrents) == files.filter(of_an_episode()).map_values(
            owned_in(torrents),
        ),
    decreases files.len(),
{
    reveal(Seq::filter);
    if files.len() > 0 {
        lemma_owned_episodes(files.drop_last(), torrents);
    }
    assert(owned_episodes(files, torrents) =~= files.filter(of_an_episode()).map_values(
        owned_in(torrents),
    ));
}

/// What is owned of an episode is told by its files, each by season, number and
/// the language of its torrent; packs are left out.
pub proof fn every_file_owns_its_language(
    files: &Vec<(EpisodeFileRow, bool)>,
    torrents: &Vec<CollectionTorrent>,
    r: Vec<OwnedEpisode>,
    i: int,
    hash: &str,
    l: Language,
)
    requires
        call_ensures(owned_languages, (files, torrents), r),
        0 <= i < r@.len(),
    ensures
        r@.len() == files@.filter(of_an_episode()).len(),
        r@[i].0 == files@.filter(of_an_episode())[i].0.season,
        r@[i].1 == files@.filter(of_an_episode())[i].0.episode,
        hash@ == files@.filter(of_an_episode())[i].0.infohash@ && call_ensures(
            resolve_torrent_language,
            (torrents, hash),
            l,
        ) ==> r@[i].2 == l,
{
    lemma_owned_episodes(files@, torrents@);
}

/// A season is covered by a language exactly where a file of it is in it.
pub proof fn seasons_are_covered_by_their_files(
    owned: &Vec<OwnedEpisode>,
    r: Vec<(i64, Language)>,
    season: i64,
    l: Language,
)
    requires
        call_ensures(season_language_coverage, (owned,), r),
    ensures
        r@.no_duplicates(),
        r@.contains((season, l)) == exists|i: int|
            0 <= i < owned@.len() && (#[trigger] owned@[i]).0 == season && owned@[i].2 == l,
{
    assert(r@.contains((season, l)) == season_has(owned@, season, l));
}

/// Offers worth showing: of an episode, with seeders, of a release that is not
/// in the collection, and for an episode that is on disk neither in its language
/// nor in several.
pub open spec fn worth_showing(
    owned: Seq<OwnedEpisode>,
    torrents: Seq<CollectionTorrent>,
) -> spec_fn(AvailableEpisodeRow) -> bool {
    |o: AvailableEpisodeRow|
        {
            &&& o.episode != 0
            &&& o.seeders is Some && o.seeders->0 >= 1
            &&& forall|i: int|
                0 <= i < torrents.len() ==> !((#[trigger] torrents[i]).source_provider is Some
                    && torrents[i].source_external_id is Some && torrents[i].source_provider->0@
                    == o.indexer_provider@ && torrents[i].source_external_id->0@
                    == o.indexer_torrent_id@)
            &&& forall|i: int|
                0 <= i < owned.len() && (#[trigger] owned[i]).0 == o.season && owned[i].1
                    == o.episode ==> !(owned[i].2 is Multi) && owned[i].2 != o.language
        }
}

/// An offer as a client sees it.
pub open spec fn told_of_an_offer() -> spec_fn(AvailableEpisodeRow) -> AvailableEpisodeEntry {
    |o: AvailableEpisodeRow|
        AvailableEpisodeEntry {
            season: o.season,
            episode: o.episode,
            indexer_provider: o.indexer_provider,
            indexer_torrent_id: o.indexer_torrent_id,
            quality: o.quality,
            seeders: o.seeders,
            size_bytes: o.size_bytes,
            found_at: o.found_at,
            language: o.language_tag,
            absolute_episode: o.absolute_episode,
        }
}

proof fn lemma_worth_showing(
    o: AvailableEpisodeRow,
    owned: Seq<OwnedEpisode>,
    torrents: Seq<CollectionTorrent>,
)
    ensures
        shown(o, owned, torrents) == worth_showing(owned, torrents)(o),
{
    if covered(owned, o.season, o.episode, o.language) {
        let i = choose|i: int|
            0 <= i < owned.len() && (#[trigger] owned[i]).0 == o.season && owned[i].1 == o.episode
                && (owned[i].2 == Language::Multi || owned[i].2 == o.language);
        assert(owned[i].0 == o.season);
    }
    if owns_release(torrents, o.indexer_provider@, o.indexer_torrent_id@) {
        let i = choose|i: int|
            0 <= i < torrents.len() && text::opt_view((#[trigger] torrents[i]).source_provider)
                == Some(o.indexer_provider@) && text::opt_view(torrents[i].source_external_id)
                == Some(o.indexer_torrent_id@);
        assert(torrents[i].source_provider is Some);
    }
    if !worth_showing(owned, torrents)(o) && o.episode != 0 && o.seeders is Some && o.seeders->0
        >= 1 {
        if exists|i: int|
            0 <= i < owned.len() && (#[trigger] owned[i]).0 == o.season && owned[i].1 == o.episode
                && (owned[i].2 is Multi || owned[i].2 == o.language) {
            let i = choose|i: int|
                0 <= i < owned.len() && (#[trigger] owned[i]).0 == o.season && owned[i].1
                    == o.episode && (owned[i].2 is Multi || owned[i].2 == o.language);
            assert(covered(owned, o.season, o.episode, o.language));
        } else {
            let i = choose|i: int|
                0 <= i < torrents.len() && (#[trigger] torrents[i]).source_provider is Some
                    && torrents[i].source_external_id is Some && torrents[i].source_provider->0@
                    == o.indexer_provider@ && torrents[i].source_external_id->0@
                    == o.indexer_torrent_id@;
            assert(text::opt_view(torrents[i].source_provider) == Some(o.indexer_provider@));
        }
    }
}

proof fn lemma_shown_entries(
    offers: Seq<AvailableEpisodeRow>,
    owned: Seq<OwnedEpisode>,
    torrents: Seq<CollectionTorrent>,
)
    ensures
        shown_entries(offers, owned, torrents) == offers.filter(
            worth_showing(owned, torrents),
        ).map_values(told_of_an_offer()),
    decreases offers.len(),
{
    reveal(Seq::filter);
    if offers.len() > 0 {
        lemma_shown_entries(offers.drop_last(), owned, torrents);
        lemma_worth_showing(offers.last(), owned, torrents);
    }
    assert(shown_entries(offers, owned, torrents) =~= offers.filter(
        worth_showing(owned, torrents),
    ).map_values(told_of_an_offer()));
}

/// Entries that were found after a visit; all of them where there was none.
pub open spec fn found_after(visited: Option<i64>) -> spec_fn(AvailableEpisodeEntry) -> bool {
    |e: AvailableEpisodeEntry| visited is None || visited->0 < e.found_at
}

proof fn lemma_new_entries(entries: Seq<AvailableEpisodeEntry>, visited: Option<i64>)
    ensures
        new_entries(entries, visited) == entries.filter(found_after(visited)).len(),
    decreases entries.len(),
{
    reveal(Seq::filter);
    if entries.len() > 0 {
        lemma_new_entries(entries.drop_last(), visited);
    }
}

/// The offers worth showing are shown, all of them, by season and episode, and
/// no others; those count as new that were found after the last visit.
pub proof fn offers_worth_showing_are_shown(
    offers: Vec<AvailableEpisodeRow>,
    owned: &Vec<OwnedEpisode>,
    torrents: &Vec<CollectionTorrent>,
    visited: Option<i64>,
    r: (Vec<AvailableEpisodeEntry>, u32),
)
    requires
        call_ensures(build_available_singletons, (offers, owned, torrents, visited), r),
    ensures
        ({
            let entries = offers@.filter(worth_showing(owned@, torrents@)).map_values(
                told_of_an_offer(),
            );
            let new = entries.filter(found_after(visited)).len();
            &&& r.0@.to_multiset() == entries.to_multiset()
            &&& r.1 == if new <= u32::MAX {
                new as int
            } else {
                u32::MAX as int
            }
        }),
        forall|i: int, j: int|
            0 <= i < j < r.0@.len() ==> (#[trigger] r.0@[i]).season < (#[trigger] r.0@[j]).season
                || (r.0@[i].season == r.0@[j].season && r.0@[i].episode <= r.0@[j].episode),
{
    let entries = shown_entries(offers@, owned@, torrents@);
    lemma_shown_entries(offers@, owned@, torrents@);
    lemma_new_entries(entries, visited);
    order::sorted_is_ordered_permutation(entries);
    assert forall|i: int, j: int| 0 <= i < j < r.0@.len() implies (#[trigger] r.0@[i]).season < (
    #[trigger] r.0@[j]).season || (r.0@[i].season == r.0@[j].season && r.0@[i].episode
        <= r.0@[j].episode) by {
        assert(!r.0@[j].before(r.0@[i]));
    }
}

/// Packs whose release is not in the collection.
pub open spec fn not_in_collection(torrents: Seq<CollectionTorrent>) -> spec_fn(
    AvailableEpisodeRow,
) -> bool {
    |p: AvailableEpisodeRow|
        forall|i: int|
            0 <= i < torrents.len() ==> !((#[trigger] torrents[i]).source_provider is Some
                && torrents[i].source_external_id is Some && torrents[i].source_provider->0@
                == p.indexer_provider@ && torrents[i].source_external_id->0@
                == p.indexer_torrent_id@)
}

/// A pack as a client sees it.
pub open spec fn told_of_a_pack() -> spec_fn(AvailableEpisodeRow) -> SeasonPackEntry {
    |p: AvailableEpisodeRow|
        SeasonPackEntry {
            season: p.season,
            indexer_provider: p.indexer_provider,
            indexer_torrent_id: p.indexer_torrent_id,
            quality: p.quality,
            seeders: p.seeders,
            size_bytes: p.size_bytes,
            found_at: p.found_at,
            language: p.language_tag,
        }
}

proof fn lemma_pack_entries(packs: Seq<AvailableEpisodeRow>, torrents: Seq<CollectionTorrent>)
    ensures
        pack_entries(packs, torrents) == packs.filter(not_in_collection(torrents)).map_values(
            told_of_a_pack(),
        ),
    decreases packs.len(),
{
    reveal(Seq::filter);
    if packs.len() > 0 {
        lemma_pack_entries(packs.drop_last(), torrents);
        let p = packs.last();
        if owns_release(torrents, p.indexer_provider@, p.indexer_torrent_id@) {
            let i = choose|i: int|
                0 <= i < torrents.len() && text::opt_view((#[trigger] torrents[i]).source_provider)
                    == Some(p.indexer_provider@) && text::opt_view(torrents[i].source_external_id)
                    == Some(p.indexer_torrent_id@);
            assert(torrents[i].source_provider is Some);
        } else {
            assert forall|i: int| 0 <= i < torrents.len() implies !((
            #[trigger] torrents[i]).source_provider is Some && torrents[i].source_external_id
                is Some && torrents[i].source_provider->0@ == p.indexer_provider@
                && torrents[i].source_external_id->0@ == p.indexer_torrent_id@) by {
                assert(!(text::opt_view(torrents[i].source_provider) == Some(p.indexer_provider@)
                    && text::opt_view(torrents[i].source_external_id) == Some(
                    p.indexer_torrent_id@,
                )));
            }
        }
    }
    assert(pack_entries(packs, torrents) =~= packs.filter(not_in_collection(torrents)).map_values(
        told_of_a_pack(),
    ));
}

/// The packs that are not in the collection are shown, all of them, by season
/// and within one by language tag, and no others.
pub proof fn packs_not_owned_are_shown(
    packs: Vec<AvailableEpisodeRow>,
    torrents: &Vec<CollectionTorrent>,
    r: Vec<SeasonPackEntry>,
)
    requires
        call_ensures(build_season_packs, (packs, torrents), r),
    ensures
        r@.to_multiset() == packs@.filter(not_in_collection(torrents@)).map_values(
            told_of_a_pack(),
        ).to_multiset(),
        forall|i: int, j: int|
            0 <= i < j < r@.len() ==> (#[trigger] r@[i]).season < (#[trigger] r@[j]).season || (
            r@[i].season == r@[j].season && (r@[i].language is None || (r@[j].language is Some
                && !text::text_lt(r@[j].language->0@, r@[i].language->0@)) || (r@[j].language
                is None && r@[i].language->0@.len() == 0))),
{
    let entries = pack_entries(packs@, torrents@);
    lemma_pack_entries(packs@, torrents@);
    order::sorted_is_ordered_permutation(entries);
    reveal_strlit("");
    assert(""@.len() == 0);
    assert forall|i: int, j: int| 0 <= i < j < r@.len() implies (#[trigger] r@[i]).season < (
    #[trigger] r@[j]).season || (r@[i].season == r@[j].season && (r@[i].language is None || (
    r@[j].language is Some && !text::text_lt(r@[j].language->0@, r@[i].language->0@)) || (
    r@[j].language is None && r@[i].language->0@.len() == 0))) by {
        assert(!r@[j].before(r@[i]));
        if r@[i].season == r@[j].season && r@[i].language is Some && r@[j].language is None {
            assert(!text::text_lt(""@, r@[i].language->0@));
        }
    }
}

/// A file as a client sees it, in the language of its torrent.
pub open spec fn told_of_a_file(torrents: Seq<CollectionTorrent>) -> spec_fn(
    (EpisodeFileRow, bool),
) -> EpisodeEntry {
    |f: (EpisodeFileRow, bool)|
        EpisodeEntry {
            season: f.0.season,
            episode: f.0.episode,
            infohash: f.0.infohash,
            file_idx: f.0.file_idx,
            watched: f.1,
            language: torrent_language(torrents, f.0.infohash@),
            absolute_episode: f.0.absolute_episode,
        }
}

/// The page of a show lists every file by season, episode and index, and beyond
/// these what the indexers offer; without a normalised title they offer nothing.
pub proof fn show_lists_files_and_offers(
    files: Vec<(EpisodeFileRow, bool)>,
    torrents: &Vec<CollectionTorrent>,
    cached: Option<CachedOffers>,
    visited: Option<i64>,
    owned: Vec<OwnedEpisode>,
    single: (Vec<AvailableEpisodeEntry>, u32),
    packs: Vec<SeasonPackEntry>,
    r: TvView,
)
    requires
        call_ensures(owned_languages, (&files, torrents), owned),
        cached is Some ==> call_ensures(
            build_available_singletons,
            (cached->0.offers, &owned, torrents, visited),
            single,
        ) && call_ensures(build_season_packs, (cached->0.packs, torrents), packs),
        call_ensures(build_tv_episode_view, (files, torrents, cached, visited), r),
    ensures
        r.episodes@.to_multiset() == files@.map_values(told_of_a_file(torrents@)).to_multiset(),
        forall|i: int, j: int|
            0 <= i < j < r.episodes@.len() ==> (#[trigger] r.episodes@[i]).season < (
            #[trigger] r.episodes@[j]).season || (r.episodes@[i].season == r.episodes@[j].season
                && (r.episodes@[i].episode < r.episodes@[j].episode || (r.episodes@[i].episode
                == r.episodes@[j].episode && r.episodes@[i].file_idx
                <= r.episodes@[j].file_idx))),
        cached is Some ==> r.available@ == single.0@ && r.new_count == single.1 && r.packs@
            == packs@,
        cached is None ==> r.available@.len() == 0 && r.packs@.len() == 0 && r.new_count == 0,
{
    let e = file_entries(files@, torrents@);
    order::sorted_is_ordered_permutation(e);
    assert(e =~= files@.map_values(told_of_a_file(torrents@)));
    assert forall|i: int, j: int| 0 <= i < j < r.episodes@.len() implies (
    #[trigger] r.episodes@[i]).season < (#[trigger] r.episodes@[j]).season || (
    r.episodes@[i].season == r.episodes@[j].season && (r.episodes@[i].episode
        < r.episodes@[j].episode || (r.episodes@[i].episode == r.episodes@[j].episode
        && r.episodes@[i].file_idx <= r.episodes@[j].file_idx))) by {
        assert(!r.episodes@[j].before(r.episodes@[i]));
    }
}

proof fn lemma_state_of(watch: Seq<WatchState>, infohash: Seq<char>, from: int)
    requires
        0 <= from,
    ensures
        match state_of(watch, infohash, from) {
            Some(w) => exists|i: int|
                from <= i < watch.len() && #[trigger] watch[i] == w && w.infohash@ == infohash
                    && forall|j: int|
                    from <= j < i ==> (#[trigger] watch[j]).infohash@ != infohash,
            None => forall|j: int|
                from <= j < watch.len() ==> (#[trigger] watch[j]).infohash@ != infohash,
        },
    decreases watch.len() - from,
{
    if from < watch.len() {
        if watch[from].infohash@ == infohash {
            assert(watch[from] == state_of(watch, infohash, from)->0);
        } else {
            lemma_state_of(watch, infohash, from + 1);
        }
    }
}

/// Releases whose origin is known.
pub open spec fn of_known_origin() -> spec_fn(DeletedTorrent) -> bool {
    |t: DeletedTorrent| t.source_provider is Some && t.source_external_id is Some
}

proof fn lemma_gone_releases(deleted: Seq<DeletedTorrent>, watch: Seq<WatchState>)
    ensures
        gone_releases(deleted, watch) == deleted.filter(of_known_origin()).map_values(
            |t: DeletedTorrent|
                gone_release(
                    t,
                    t.source_provider->0,
                    t.source_external_id->0,
                    state_of(watch, t.infohash@, 0),
                ),
        ),
    decreases deleted.len(),
{
    reveal(Seq::filter);
    if deleted.len() > 0 {
        lemma_gone_releases(deleted.drop_last(), watch);
    }
    assert(gone_releases(deleted, watch) =~= deleted.filter(of_known_origin()).map_values(
        |t: DeletedTorrent|
            gone_release(
                t,
                t.source_provider->0,
                t.source_external_id->0,
                state_of(watch, t.infohash@, 0),
            ),
    ));
}

/// What was reclaimed and is of known origin is listed, all of it, in order,
/// with how far the caller had watched it.
pub proof fn reclaimed_releases_are_listed(
    deleted: Vec<DeletedTorrent>,
    watch: &Vec<WatchState>,
    rows: Vec<GoneEpisodeRow>,
    torrents: &Vec<CollectionTorrent>,
    r: (Vec<GoneReleaseEntry>, Vec<GoneEpisodeEntry>),
    i: int,
)
    requires
        call_ensures(build_gone_view, (deleted, watch, rows, torrents), r),
        0 <= i < r.0@.len(),
    ensures
        r.0@.len() == deleted@.filter(of_known_origin()).len(),
        ({
            let t = deleted@.filter(of_known_origin())[i];
            let e = r.0@[i];
            &&& e.infohash == t.infohash && e.name == t.name && e.total_size_bytes
                == t.total_size_bytes && e.deleted_at == t.deleted_at
            &&& Some(e.source_provider) == t.source_provider && Some(e.source_external_id)
                == t.source_external_id
            &&& (forall|j: int|
                0 <= j < watch@.len() ==> (#[trigger] watch@[j]).infohash@ != t.infohash@)
                ==> !e.watched && e.position_bits is None && e.duration_bits is None
                && e.last_watched_at is None
            &&& (exists|j: int|
                0 <= j < watch@.len() && (#[trigger] watch@[j]).infohash@ == t.infohash@)
                ==> exists|j: int|
                0 <= j < watch@.len() && (#[trigger] watch@[j]).infohash@ == t.infohash@
                    && e.watched == watch@[j].completed && e.position_bits == Some(
                    watch@[j].position_bits,
                ) && e.duration_bits == watch@[j].duration_bits && e.last_watched_at == Some(
                    watch@[j].last_watched_at,
                ) && forall|k: int| 0 <= k < j ==> (#[trigger] watch@[k]).infohash@ != t.infohash@
        }),
{
    lemma_gone_releases(deleted@, watch@);
    let f = deleted@.filter(of_known_origin());
    let t = f[i];
    lemma_state_of(watch@, t.infohash@, 0);
    broadcast use vstd::seq_lib::group_filter_ensures;

    assert(of_known_origin()(f[i]));
}

/// Episodes whose origin is known.
pub open spec fn episode_of_known_origin() -> spec_fn(GoneEpisodeRow) -> bool {
    |r: GoneEpisodeRow| r.source_provider is Some && r.source_external_id is Some
}

proof fn lemma_gone_episodes(rows: Seq<GoneEpisodeRow>, torrents: Seq<CollectionTorrent>)
    ensures
        gone_episodes(rows, torrents) == rows.filter(episode_of_known_origin()).map_values(
            |r: GoneEpisodeRow|
                gone_episode(r, r.source_provider->0, r.source_external_id->0, torrents),
        ),
    decreases rows.len(),
{
    reveal(Seq::filter);
    if rows.len() > 0 {
        lemma_gone_episodes(rows.drop_last(), torrents);
    }
    assert(gone_episodes(rows, torrents) =~= rows.filter(episode_of_known_origin()).map_values(
        |r: GoneEpisodeRow|
            gone_episode(r, r.source_provider->0, r.source_external_id->0, torrents),
    ));
}

/// Reclaimed episodes of known origin are listed, all of them, in order, as they
/// were and in the language of their torrent.
pub proof fn reclaimed_episodes_are_listed(
    deleted: Vec<DeletedTorrent>,
    watch: &Vec<WatchState>,
    rows: Vec<GoneEpisodeRow>,
    torrents: &Vec<CollectionTorrent>,
    r: (Vec<GoneReleaseEntry>, Vec<GoneEpisodeEntry>),
    i: int,
    hash: &str,
    l: Language,
)
    requires
        call_ensures(build_gone_view, (deleted, watch, rows, torrents), r),
        0 <= i < r.1@.len(),
    ensures
        r.1@.len() == rows@.filter(episode_of_known_origin()).len(),
        ({
            let t = rows@.filter(episode_of_known_origin())[i];
            let e = r.1@[i];
            &&& e.season == t.season && e.episode == t.episode && e.absolute_episode
                == t.absolute_episode
            &&& e.infohash == t.infohash && e.file_idx == t.file_idx && e.release_name
                == t.torrent_name
            &&& e.watched == t.completed && e.position_bits == t.position_bits && e.duration_bits
                == t.duration_bits && e.last_watched_at == t.last_watched_at
            &&& Some(e.source_provider) == t.source_provider && Some(e.source_external_id)
                == t.source_external_id
            &&& hash@ == t.infohash@ && call_ensures(
                resolve_torrent_language,
                (torrents, hash),
                l,
            ) ==> e.language == l
        }),
{
    lemma_gone_episodes(rows@, torrents@);
    let f = rows@.filter(episode_of_known_origin());
    broadcast use vstd::seq_lib::group_filter_ensures;

    assert(episode_of_known_origin()(f[i]));
}

/// The page of a collection is made of its torrents, of what was reclaimed and,
/// where it is of television, of its episodes; only a collection that is not
/// there has none.
pub proof fn page_is_made_of_its_parts(
    c: CollectionRow,
    data: CollectionData,
    views: Vec<TorrentView>,
    show: TvView,
    gone: (Vec<GoneReleaseEntry>, Vec<GoneEpisodeEntry>),
    missing: Result<CollectionDetail, ApiError>,
    r: Result<CollectionDetail, ApiError>,
)
    requires
        call_ensures(torrent_views, (data.torrent_rows,), views),
        call_ensures(
            build_tv_episode_view,
            (data.files, &data.torrents, data.cached, data.user_last_visited),
            show,
        ),
        call_ensures(
            build_gone_view,
            (data.deleted, &data.watch, data.gone_rows, &data.gone_torrents),
            gone,
        ),
        call_ensures(collection_detail, (None::<CollectionRow>, data), missing),
        call_ensures(collection_detail, (Some(c), data), r),
    ensures
        missing matches Err(e) && e@ is NotFound,
        r matches Ok(d) && {
            &&& d.id == c.id && d.tmdb_id == c.tmdb_id && d.display_title == c.display_title
                && d.is_anime == c.is_anime
            &&& d.kind is Movie == (c.kind@ == "movie"@)
            &&& d.torrents@ == views@
            &&& d.gone_releases@ == gone.0@ && d.gone_episodes@ == gone.1@
            &&& c.kind@ == "tv"@ ==> d.episodes@ == show.episodes@ && d.available_episodes@
                == show.available@ && d.season_packs@ == show.packs@
                && d.has_new_since_last_visit == show.new_count
            &&& c.kind@ != "tv"@ ==> d.episodes@.len() == 0 && d.available_episodes@.len() == 0
                && d.season_packs@.len() == 0 && d.has_new_since_last_visit == 0
            &&& data.paths is Some ==> (d.poster_path, d.backdrop_path) == data.paths->0
            &&& data.paths is None ==> d.poster_path is None && d.backdrop_path is None
            &&& forall|n: String|
                #[trigger] call_ensures(
                    derive_numbering,
                    (&d.episodes, &d.gone_episodes, &d.available_episodes),
                    n,
                ) ==> d.numbering@ == n@
        },
{
    reveal_strlit("movie");
    reveal_strlit("tv");
    assert("movie"@.len() == 5 && "tv"@.len() == 2);
    assert(r is Ok);
    let d = r->Ok_0;
    if c.kind@ == "tv"@ {
        if data.cached is None {
            assert(d.available_episodes@ =~= show.available@);
            assert(d.season_packs@ =~= show.packs@);
        }
    }
}

/// Episodes are downloaded of television alone, under the normalised title, and
/// of nothing without one.
pub proof fn only_shows_are_downloaded_by_episode(
    collection: Option<CollectionRow>,
    r: Result<String, ApiError>,
)
    requires
        call_ensures(grab_collection_episode, (collection,), r),
    ensures
        r is Ok == (collection is Some && collection->0.kind@ == "tv"@
            && collection->0.parsed_title_normalized is Some),
        r matches Ok(n) ==> Some(n) == collection->0.parsed_title_normalized,
        collection is None ==> r->Err_0@ is NotFound,
        collection is Some && r is Err ==> r->Err_0@ is BadRequest,
{
}

} // verus!
