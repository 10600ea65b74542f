//! Descriptions of watched titles that the catalogue lacks.

use vstd::prelude::*;

use crate::text;
use crate::tmdb;
use crate::tmdb::{MediaMetadata, TmdbKind};

verus! {

/// A title of the catalogue.
#[derive(Debug)]
pub struct NewCatalogItem {
    pub tmdb_id: Option<i64>,
    pub anilist_id: Option<i64>,
    pub kind: String,
    pub title: String,
    pub original_language: Option<String>,
    pub genres: Vec<i64>,
    pub is_anime: bool,
    pub poster_path: Option<String>,
    pub backdrop_path: Option<String>,
    pub overview: Option<String>,
    /// Bits of double-precision numbers.
    pub popularity_bits: Option<u64>,
    pub vote_average_bits: Option<u64>,
    pub release_date: Option<String>,
    pub source: Option<String>,
    pub availability: String,
    pub seeders: Option<i64>,
    pub provider_id: Option<String>,
    pub external_id: Option<String>,
    pub download_url: Option<String>,
    pub infohash: Option<String>,
    pub language: Option<String>,
    /// Milliseconds since the Unix epoch.
    pub released_at: Option<i64>,
    pub size_bytes: Option<i64>,
}

/// An anime that a title was matched with.
#[derive(Debug)]
pub struct AnimeMatch {
    pub anilist_id: i64,
    pub cover_image: Option<String>,
    pub banner_image: Option<String>,
}

/// Which entry to look up for a watched title; a number that TMDB does not
/// give is skipped.
pub fn lookup_target(tmdb_id: i64, is_tv: bool) -> (r: Option<(u64, TmdbKind)>)
    ensures
        r == if tmdb_id < 0 {
            None
        } else {
            Some(
                (
                    tmdb_id as u64,
                    if is_tv {
                        TmdbKind::Tv
                    } else {
                        TmdbKind::Movie
                    },
                ),
            )
        },
{
    if tmdb_id < 0 {
        return None;
    }
    let kind = if is_tv {
        TmdbKind::Tv
    } else {
        TmdbKind::Movie
    };
    Some((tmdb_id as u64, kind))
}

/// The row of a watched title. Nothing of it can be downloaded yet; an anime
/// is filed under its number at AniList, and shows AniList's images where
/// there are any.
pub fn catalog_item(tmdb_id: i64, m: &MediaMetadata, anime: Option<AnimeMatch>) -> (r:
    NewCatalogItem)
    ensures
        r.tmdb_id == Some(tmdb_id),
        r.anilist_id == match anime {
            Some(a) => Some(a.anilist_id),
            None => None,
        },
        r.kind@ == tmdb::kind_word(m.kind),
        r.title == m.title,
        r.original_language == m.original_language,
        r.genres@ == Seq::new(m.genre_ids@.len(), |i: int| m.genre_ids@[i] as i64),
        r.is_anime == (anime is Some),
        r.poster_path == match anime {
            Some(a) => tmdb::or_text(a.cover_image, m.poster_path),
            None => m.poster_path,
        },
        r.backdrop_path == match anime {
            Some(a) => tmdb::or_text(a.banner_image, m.backdrop_path),
            None => m.backdrop_path,
        },
        r.overview == m.overview,
        r.popularity_bits == m.popularity_bits,
        r.vote_average_bits == m.vote_score_bits,
        r.release_date == m.release_date,
        text::opt_view(r.source) == Some("reco:watched-backfill"@),
        r.availability@ == "unknown"@,
        r.seeders is None && r.provider_id is None && r.external_id is None && r.download_url is None,
        r.infohash is None && r.language is None && r.released_at is None && r.size_bytes is None,
{
    let mut genres: Vec<i64> = Vec::new();
    for i in 0..m.genre_ids.len()
        invariant
            genres@ == Seq::new(i as nat, |j: int| m.genre_ids@[j] as i64),
    {
        genres.push(m.genre_ids[i] as i64);
    }
    let is_anime = match &anime {
        Some(_) => true,
        None => false,
    };
    let mut anilist_id: Option<i64> = None;
    let mut poster_path = text::clone_opt(&m.poster_path);
    let mut backdrop_path = text::clone_opt(&m.backdrop_path);
    match anime {
        Some(a) => {
            anilist_id = Some(a.anilist_id);
            match a.cover_image {
                Some(p) => {
                    poster_path = Some(p);
                },
                None => {},
            }
            match a.banner_image {
                Some(p) => {
                    backdrop_path = Some(p);
                },
                None => {},
            }
        },
        None => {},
    }
    NewCatalogItem {
        tmdb_id: Some(tmdb_id),
        anilist_id,
        kind: tmdb::kind_marker(m.kind).to_string(),
        title: m.title.clone(),
        original_language: text::clone_opt(&m.original_language),
        genres,
        is_anime,
        poster_path,
        backdrop_path,
        overview: text::clone_opt(&m.overview),
        popularity_bits: m.popularity_bits,
        vote_average_bits: m.vote_score_bits,
        release_date: text::clone_opt(&m.release_date),
        source: Some("reco:watched-backfill".to_string()),
        availability: "unknown".to_string(),
        seeders: None,
        provider_id: None,
        external_id: None,
        download_url: None,
        infohash: None,
        language: None,
        released_at: None,
        size_bytes: None,
    }
}

// ---------------------------------------------------------------------------
// Laws
// ---------------------------------------------------------------------------

/// A watched title is looked up under its own number and kind; no number
/// below zero is looked up.
pub proof fn watched_title_is_looked_up(tmdb_id: i64, is_tv: bool, r: Option<(u64, TmdbKind)>)
    requires
        call_ensures(lookup_target, (tmdb_id, is_tv), r),
    ensures
        r is Some <==> tmdb_id >= 0,
        r is Some ==> (r->0).0 == tmdb_id,
        r is Some ==> ((r->0).1 is Tv <==> is_tv),
{
}

/// A row tells what the title's description tells; an anime is one where it
/// was matched, shows the images of its match, and those of its description
/// where the match has none. Nothing of it can be had yet.
pub proof fn row_tells_of_the_title(
    tmdb_id: i64,
    m: &MediaMetadata,
    anime: Option<AnimeMatch>,
    word: &str,
    r: NewCatalogItem,
)
    requires
        call_ensures(tmdb::kind_marker, (m.kind,), word),
        call_ensures(catalog_item, (tmdb_id, m, anime), r),
    ensures
        r.tmdb_id == Some(tmdb_id) && r.kind@ == word@ && r.title == m.title,
        r.original_language == m.original_language && r.overview == m.overview,
        r.release_date == m.release_date && r.popularity_bits == m.popularity_bits,
        r.vote_average_bits == m.vote_score_bits,
        r.genres@.len() == m.genre_ids@.len(),
        forall|i: int| 0 <= i < r.genres@.len() ==> #[trigger] r.genres@[i] == m.genre_ids@[i],
        r.is_anime <==> anime is Some,
        r.anilist_id is Some <==> anime is Some,
        anime is Some ==> r.anilist_id->0 == anime->0.anilist_id,
        anime is None || anime->0.cover_image is None ==> r.poster_path == m.poster_path,
        anime is Some && anime->0.cover_image is Some ==> r.poster_path == anime->0.cover_image,
        anime is None || anime->0.banner_image is None ==> r.backdrop_path == m.backdrop_path,
        anime is Some && anime->0.banner_image is Some ==> r.backdrop_path == anime->0.banner_image,
        r.availability@ == seq!['u', 'n', 'k', 'n', 'o', 'w', 'n'],
        r.source is Some && r.source->0@ == "reco:watched-backfill"@,
        r.seeders is None && r.provider_id is None && r.external_id is None && r.download_url is None
            && r.infohash is None && r.size_bytes is None,
{
    reveal_strlit("unknown");
    assert("unknown"@ =~= seq!['u', 'n', 'k', 'n', 'o', 'w', 'n']);
}

} // verus!
